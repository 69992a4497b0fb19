//! Errors and their messages.

use wlr_capture::error::{CaptureError, Context, Result};

#[test]
fn variant_display_text_is_stable() {
    assert_eq!(
        CaptureError::OutputNotFound("HDMI-1".into()).to_string(),
        "output 'HDMI-1' not found"
    );
    assert_eq!(
        CaptureError::WindowNotFound("42".into()).to_string(),
        "window '42' not found"
    );
    assert_eq!(
        CaptureError::InvalidGeometry("bad".into()).to_string(),
        "invalid geometry 'bad' (expected 'X,Y WxH')"
    );
    assert!(CaptureError::WindowsUnsupported
        .to_string()
        .contains("wlroots >= 0.20"));
}

#[test]
fn ambiguous_window_lists_every_candidate() {
    let e = CaptureError::AmbiguousWindow {
        selector: "app-id 'firefox'".into(),
        candidates: vec!["  1  firefox  Inbox".into(), "  2  firefox  Docs".into()],
    };
    assert_eq!(
        e.to_string(),
        "app-id 'firefox' matches 2 windows:\n  1  firefox  Inbox\n  2  firefox  Docs"
    );
}

#[test]
fn source_too_small_interpolates_dimensions() {
    assert_eq!(
        CaptureError::SourceTooSmall { w: 4, h: 2 }.to_string(),
        "source too small to encode (4x2)"
    );
}

#[test]
fn msg_is_a_backend_error_without_a_cause() {
    let e = CaptureError::msg("boom");
    assert_eq!(e.to_string(), "boom");
    assert!(e.source().is_none());
}

#[test]
fn context_on_result_wraps_and_preserves_the_cause() {
    let e: CaptureError = "x".parse::<i32>().context("parsing width").unwrap_err();
    assert_eq!(e.to_string(), "parsing width");
    let cause = e.source().expect("cause preserved");
    assert!(cause.to_string().contains("invalid digit"));
}

#[test]
fn with_context_is_lazy_and_only_builds_on_error() {
    let ok: Result<i32> = "1"
        .parse::<i32>()
        .with_context(|| -> String { unreachable!("not called on Ok") });
    assert_eq!(ok.unwrap(), 1);

    let e = "x"
        .parse::<i32>()
        .with_context(|| format!("ctx {}", 7))
        .unwrap_err();
    assert_eq!(e.to_string(), "ctx 7");
}

#[test]
fn context_on_option_maps_none_and_passes_some_through() {
    let e = None::<i32>.context("missing thing").unwrap_err();
    assert_eq!(e.to_string(), "missing thing");
    assert!(e.source().is_none());

    assert_eq!(Some(5).context("unused").unwrap(), 5);
}

#[test]
fn an_error_of_our_own_keeps_its_whole_chain() {
    let inner: Result<i32, CaptureError> = "x".parse::<i32>().context("parsing width");
    let outer = inner.context("reading the geometry").context("taking a screenshot").unwrap_err();
    assert_eq!(outer.to_string(), "taking a screenshot");
    match outer {
        CaptureError::Backend { source, .. } => {
            assert_eq!(source.len(), 3);
            assert_eq!(source[..2], ["reading the geometry", "parsing width"]);
            assert!(source[2].contains("invalid digit"));
        }
        _ => panic!("not a backend error"),
    }
    let plain: Result<(), _> = Err(CaptureError::NoOutputs);
    let told = plain.with_context(|| "capturing".to_string()).unwrap_err();
    assert_eq!(told.source().map(String::as_str), Some("no outputs available"));
}

/// An error with a cause of its own.
#[derive(Debug)]
struct Outer(std::num::ParseIntError);

impl std::fmt::Display for Outer {
    fn fmt(&self, f: &mut std::fmt::Formatter<'_>) -> std::fmt::Result {
        f.write_str("bad width")
    }
}

impl std::error::Error for Outer {
    fn source(&self) -> Option<&(dyn std::error::Error + 'static)> {
        Some(&self.0)
    }
}

#[test]
fn context_keeps_the_causes_of_the_cause() {
    let r: std::result::Result<i32, Outer> = "x".parse::<i32>().map_err(Outer);
    match r.context("reading a region").unwrap_err() {
        CaptureError::Backend { context, source } => {
            assert_eq!(context, "reading a region");
            assert_eq!(source, ["bad width", "invalid digit found in string"]);
        }
        e => panic!("{e:?}"),
    }
}
