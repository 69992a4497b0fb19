//! Focusing windows by identifier.

use wlr_capture::cosmic_activate::{activate, can_activate, manager_advertised, position_of};
use wlr_capture::error::CaptureError;

const CLOSE: u32 = 1;
const ACTIVATE: u32 = 2;
const MAXIMIZE: u32 = 3;
const MINIMIZE: u32 = 4;
const FULLSCREEN: u32 = 5;
const MOVE_TO_WORKSPACE: u32 = 6;
const STICKY: u32 = 7;
const MOVE_TO_EXT_WORKSPACE: u32 = 8;

/// A `capabilities` array as the wire carries it: 32-bit values, host byte order.
fn caps(values: &[u32]) -> Vec<u8> {
    values.iter().flat_map(|c| c.to_ne_bytes()).collect()
}

#[test]
fn activate_is_found_among_the_capabilities() {
    // What cosmic-comp 1.8.0 answers: close, activate, maximize, minimize, fullscreen,
    // move_to_workspace, sticky, move_to_ext_workspace.
    let all = caps(&[
        CLOSE,
        ACTIVATE,
        MAXIMIZE,
        MINIMIZE,
        FULLSCREEN,
        MOVE_TO_WORKSPACE,
        STICKY,
        MOVE_TO_EXT_WORKSPACE,
    ]);
    assert!(can_activate(&all));
    assert!(can_activate(&caps(&[ACTIVATE])));
}

#[test]
fn a_manager_without_activate_cannot_focus() {
    assert!(!can_activate(&caps(&[CLOSE, MAXIMIZE])));
    // No `capabilities` event at all: nothing says the request is honoured.
    assert!(!can_activate(&[]));
    // A truncated trailing value is not a capability; only whole ones count.
    assert!(!can_activate(&[2, 0, 0]));
}

#[test]
fn the_target_window_is_matched_on_its_exact_identifier() {
    // Two windows of the same app with the same title — the case zwlr can only resolve by
    // creation order, and COSMIC by the identifier itself.
    let ids = ["toplevel-4", "toplevel-12", "toplevel-1"];
    let find = |wanted| position_of(&ids, wanted);

    assert_eq!(find("toplevel-4"), Some(0));
    assert_eq!(find("toplevel-12"), Some(1));
    assert_eq!(find("toplevel-1"), Some(2));
    // A prefix of a real identifier is a different window, not that one.
    assert_eq!(find("toplevel-"), None);
    assert_eq!(find("toplevel-123"), None);
    assert_eq!(find(""), None);
    assert_eq!(position_of(&[], "toplevel-1"), None);
}

#[test]
fn a_compositor_advertising_neither_global_has_no_cosmic_manager() {
    let info = "zcosmic_toplevel_info_v1".to_string();
    let manager = "zcosmic_toplevel_manager_v1".to_string();

    assert!(manager_advertised(&[(info.clone(), 2), (manager.clone(), 4)]));
    // Version 1 of the info protocol has no `get_cosmic_toplevel`, so a COSMIC handle can
    // never be tied to the ext handle the caller names.
    assert!(!manager_advertised(&[(info.clone(), 1), (manager.clone(), 4)]));
    assert!(!manager_advertised(&[(info, 3)]));
    assert!(!manager_advertised(&[(manager, 4)]));
    assert!(!manager_advertised(&[]));
}

#[test]
fn focusing_needs_the_manager_its_consent_and_the_window() {
    assert_eq!(activate(true, true, &["a", "b"], "b").unwrap(), 1);
    assert!(matches!(
        activate(false, true, &["a"], "a"),
        Err(CaptureError::ActivationUnsupported)
    ));
    assert!(activate(true, false, &["a"], "a").is_err());
    assert!(activate(true, true, &["a"], "c").is_err());
}
