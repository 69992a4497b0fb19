//! The capture thread's rounds.

use wlr_capture::image::CapturedImage;
use wlr_capture::live::{
    arrange, keys_of, quick_hash, round_budget, thumbnail, Capturable, Stats, Tracker,
};
use wlr_capture::session::SessionId;
use wlr_capture::sources::{Candidate, WindowFilters, WindowOrder};
use wlr_capture::wl::{Output, Toplevel, Transform};

fn output(name: &str) -> Output {
    Output {
        wl_output: 1,
        name: name.into(),
        logical_x: 0,
        logical_y: 0,
        logical_w: 1,
        logical_h: 1,
        phys_width: 1,
        phys_height: 1,
        scale: 1,
        transform: Transform::Normal,
        have_xdg: true,
    }
}

fn window(identifier: &str, app_id: &str, title: &str) -> Toplevel {
    Toplevel { handle: 1, identifier: identifier.into(), app_id: app_id.into(), title: title.into() }
}

fn keys(names: &[&str]) -> Vec<String> {
    names.iter().map(|s| s.to_string()).collect()
}

#[test]
fn outputs_come_first_by_name_then_windows_in_order() {
    let outputs = [output("HDMI-1"), output("DP-1")];
    let labels = keys(&["Screen HDMI-1", "Screen DP-1"]);
    let open = [window("w1", "Zed", "b"), window("w2", "foot", "a"), window("w3", "", "bar")];
    let list = arrange(&outputs, &labels, &open, &WindowFilters::default(), &WindowOrder::ByName);
    assert_eq!(keys_of(&list), ["out:DP-1", "out:HDMI-1", "w3", "w2", "w1"]);
    assert_eq!(list[0].capture, Capturable::Output(1));
    assert_eq!(list[4].capture, Capturable::Window(0));
    assert_eq!(list[0].source.title, "Screen DP-1");
    assert_eq!(list[0].source.filter, "screen dp-1 dp-1");
    assert_eq!(list[0].source.token, "Monitor: DP-1");
    assert_eq!((list[3].source.title.as_str(), list[3].source.subtitle.as_str()), ("foot", "a"));
    assert_eq!(list[3].source.token, "Window: w2");
    assert!(list[2].source.is_system && list[2].source.title == "bar");
    let only = WindowFilters::new(keys(&["foot"]), vec![], vec![]);
    let list = arrange(&[], &vec![], &open, &only, &WindowOrder::mru(&["w1"]));
    assert_eq!(keys_of(&list), ["w2"]);
    assert_eq!(Candidate::from(&open[1]).title, "a");
}

#[test]
fn a_round_announces_opens_and_forgets() {
    let mut t = Tracker::new();
    assert!(t.announce(&keys(&["a", "b"])));
    assert!(!t.announce(&keys(&["a", "b"])));
    assert!(t.announce(&keys(&["b", "a"])));
    assert!(t.untracked("a"));
    // A window's icon is looked for once.
    assert!(t.opened("a", Some(SessionId(1)), true));
    assert!(!t.untracked("a"));
    assert!(t.opened("b", None, true));
    assert!(t.untracked("b"));
    assert!(!t.opened("b", Some(SessionId(2)), true));
    assert!(!t.opened("out:DP-1", Some(SessionId(3)), false));
    assert_eq!(t.label(SessionId(2)), Some("b"));
    assert_eq!(t.label(SessionId(9)), None);
    // What has gone is closed and dropped, what stays is left alone.
    let gone = t.drop_gone(&keys(&["b", "out:DP-1"]));
    assert_eq!(gone, vec![("a".to_string(), SessionId(1))]);
    assert_eq!(t.label(SessionId(3)), Some("out:DP-1"));
    assert!(t.opened("a", Some(SessionId(4)), true), "gone and back: the icon is due again");
    // A session the compositor stopped is opened again.
    t.stopped(SessionId(2));
    assert!(t.untracked("b"));
    assert_eq!(t.label(SessionId(4)), Some("a"));
}

#[test]
fn a_failed_import_closes_every_session_once() {
    let mut t = Tracker::new();
    t.opened("a", Some(SessionId(1)), true);
    t.opened("b", Some(SessionId(2)), true);
    assert_eq!(t.gpu_fallback(false, false), None);
    assert_eq!(t.gpu_fallback(true, true), None);
    assert_eq!(t.gpu_fallback(true, false), Some(vec![SessionId(1), SessionId(2)]));
    assert!(t.untracked("a") && t.untracked("b"));
}

#[test]
fn a_ranking_that_names_no_window_is_told_once() {
    let list = arrange(
        &[],
        &vec![],
        &[window("w1", "foot", "a")],
        &WindowFilters::default(),
        &WindowOrder::ByName,
    );
    let sources = vec![list[0].source.clone()];
    let mut t = Tracker::new();
    let diverged = WindowOrder::mru(&["0x1"]);
    assert!(!t.check_mru(&diverged, &[]));
    assert!(t.check_mru(&diverged, &sources));
    assert!(!t.check_mru(&diverged, &sources));
}

#[test]
fn the_refresh_is_faster_on_the_gpu() {
    assert_eq!(round_budget(true), 33);
    assert_eq!(round_budget(false), 160);
}

#[test]
fn a_fingerprint_tells_frames_apart() {
    assert_eq!(quick_hash(&vec![]), (0xcbf29ce484222325u64).wrapping_mul(0x100000001b3));
    let one = (0xcbf29ce484222325u64 ^ 7).wrapping_mul(0x100000001b3);
    assert_eq!(quick_hash(&vec![7]), (one ^ 1).wrapping_mul(0x100000001b3));
    assert_ne!(quick_hash(&vec![7]), quick_hash(&vec![8]));
    // Large frames are sampled: every second byte of two times 4096.
    let mut big = vec![0u8; 8192];
    let before = quick_hash(&big);
    big[1] = 9;
    assert_eq!(quick_hash(&big), before);
    big[2] = 9;
    assert_ne!(quick_hash(&big), before);
}

#[test]
fn a_benchmark_counts_frames_that_changed() {
    let mut s = Stats::new();
    for hash in [5, 5, 6, 0, 6] {
        s.count("b", hash);
    }
    s.count("a", 1);
    assert_eq!(s.lines(), ["  a: 1 frames, 0 changed", "  b: 5 frames, 2 changed"]);
}

#[test]
fn thumbnails_shrink_and_never_grow() {
    let img = CapturedImage { width: 4, height: 2, rgba: [10u8, 20, 30, 255].repeat(8) };
    let small = thumbnail(img, Some((2, 1)));
    assert_eq!((small.width, small.height), (2, 1));
    assert_eq!(small.rgba, [10u8, 20, 30, 255].repeat(2));
    let kept = thumbnail(CapturedImage { width: 1, height: 1, rgba: vec![1, 2, 3, 4] }, None);
    assert_eq!(kept.rgba, vec![1, 2, 3, 4]);
    let short = thumbnail(CapturedImage { width: 9, height: 9, rgba: vec![0] }, None);
    assert_eq!((short.width, short.height, short.rgba.len()), (0, 0, 0));
}
