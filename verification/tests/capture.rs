//! Resolving what to capture, and putting captures together.

use wlr_capture::capture::{
    capture_to_image, choose_output, composite, encode_png, find_window, logical_to_physical,
    outputs_in_region, parse_geometry, resize, resolve_window, scale_into_capture, whole_layout,
    Attempt, OutputCapture, WindowFilter,
};
use wlr_capture::error::CaptureError;
use wlr_capture::image::CapturedImage;
use wlr_capture::region::Region;
use wlr_capture::wl::{Output, Toplevel, Transform};

#[test]
fn parse_geometry_ok() {
    let r = parse_geometry("10,20 300x400").unwrap();
    assert_eq!((r.x, r.y, r.w, r.h), (10, 20, 300, 400));
    let r = parse_geometry("-5,-6 7x8").unwrap();
    assert_eq!((r.x, r.y, r.w, r.h), (-5, -6, 7, 8));
}

#[test]
fn logical_maps_into_the_capture_of_an_untransformed_output() {
    // 3840×2160 panel shown as 1920×1080 logical: two pixels per point.
    let lr = Region { x: 100, y: 50, w: 1920, h: 1080 };
    let r = scale_into_capture(
        lr,
        (3840, 2160),
        Region { x: 100 + 10, y: 50 + 20, w: 300, h: 400 },
    );
    assert_eq!((r.x, r.y, r.w, r.h), (20, 40, 600, 800));
}

#[test]
fn logical_maps_into_the_capture_of_a_rotated_output() {
    // The same panel stood on its side: 1080×1920 logical, and a capture that comes back
    // already turned, so 2160×3840 — not the mode's 3840×2160. Both axes keep the same two
    // pixels per point; taking the mode here would scale x by 3.55 and y by 1.125 instead.
    let lr = Region { x: 0, y: 0, w: 1080, h: 1920 };
    let r = scale_into_capture(
        lr,
        (2160, 3840),
        Region { x: 10, y: 20, w: 300, h: 400 },
    );
    assert_eq!((r.x, r.y, r.w, r.h), (20, 40, 600, 800));
}

#[test]
fn parse_geometry_bad() {
    assert!(parse_geometry("nonsense").is_err());
    assert!(parse_geometry("1,2 3").is_err());
}

#[test]
fn app_id_matches_exactly_and_ignores_case() {
    let f = WindowFilter { app_id: Some("Firefox"), title: None };
    assert!(f.matches("firefox", "Inbox"));
    assert!(!f.matches("firefox-esr", "Inbox")); // not a substring match
}

#[test]
fn title_matches_as_a_case_insensitive_substring() {
    let f = WindowFilter { app_id: None, title: Some("inbox") };
    assert!(f.matches("firefox", "Inbox — Mail"));
    assert!(!f.matches("firefox", "Drafts"));
}

#[test]
fn both_fields_narrow_the_match() {
    let f = WindowFilter { app_id: Some("firefox"), title: Some("inbox") };
    assert!(f.matches("firefox", "Inbox"));
    assert!(!f.matches("chromium", "Inbox"));
    assert!(!f.matches("firefox", "Drafts"));
}

#[test]
fn describe_names_whichever_fields_are_set() {
    let app = WindowFilter { app_id: Some("firefox"), title: None };
    assert_eq!(app.describe(), "app-id 'firefox'");
    let title = WindowFilter { app_id: None, title: Some("inbox") };
    assert_eq!(title.describe(), "title containing 'inbox'");
    let both = WindowFilter { app_id: Some("firefox"), title: Some("inbox") };
    assert_eq!(
        both.describe(),
        "app-id 'firefox' with title containing 'inbox'"
    );
}

#[test]
fn titles_are_lowered_as_unicode_has_it() {
    let f = WindowFilter { app_id: None, title: Some("ÉTÉ") };
    assert!(f.matches("x", "un été"));
}

#[test]
fn geometry_takes_every_separator_and_names_what_is_wrong() {
    assert_eq!(parse_geometry(" 1,2 3X4 ").unwrap(), Region { x: 1, y: 2, w: 3, h: 4 });
    assert_eq!(parse_geometry("1,2 3×4").unwrap(), Region { x: 1, y: 2, w: 3, h: 4 });
    assert_eq!(
        parse_geometry("1,2 -3x4").unwrap_err().to_string(),
        "invalid geometry '1,2 -3x4' (expected 'X,Y WxH')"
    );
    assert!(parse_geometry("1,2 99999999999x4").is_err());
}

fn window(identifier: &str, app_id: &str, title: &str) -> Toplevel {
    Toplevel { handle: 1, identifier: identifier.into(), app_id: app_id.into(), title: title.into() }
}

#[test]
fn a_filter_names_one_window_or_says_why_not() {
    let open = [window("1", "foot", "vim"), window("2", "foot", "logs"), window("3", "mpv", "film")];
    let one = WindowFilter { app_id: Some("mpv"), title: None };
    assert_eq!(resolve_window(&open, one).unwrap().identifier, "3");
    let none = WindowFilter { app_id: Some("gimp"), title: None };
    assert!(matches!(resolve_window(&open, none), Err(CaptureError::NoWindowMatches(_))));
    let two = WindowFilter { app_id: Some("foot"), title: None };
    match resolve_window(&open, two) {
        Err(CaptureError::AmbiguousWindow { candidates, .. }) => assert_eq!(candidates.len(), 2),
        _ => panic!("not ambiguous"),
    }
    assert_eq!(find_window(&open, "2").unwrap().title, "logs");
    assert_eq!(
        find_window(&open, "9").unwrap_err().to_string(),
        "window '9' not found"
    );
}

fn output(name: &str, x: i32, y: i32, w: i32, h: i32, scale: i32) -> Output {
    Output {
        wl_output: 1,
        name: name.into(),
        logical_x: x,
        logical_y: y,
        logical_w: w,
        logical_h: h,
        phys_width: w * scale,
        phys_height: h * scale,
        scale,
        transform: Transform::Normal,
        have_xdg: true,
    }
}

#[test]
fn an_output_is_chosen_by_name_or_because_it_is_alone() {
    let two = [output("DP-1", 0, 0, 4, 4, 1), output("DP-2", 4, 0, 4, 4, 1)];
    assert_eq!(choose_output(&two, Some("DP-2")).unwrap().name, "DP-2");
    assert_eq!(choose_output(&two[..1], None).unwrap().name, "DP-1");
    assert_eq!(
        choose_output(&two, Some("DP-3")).unwrap_err().to_string(),
        "output 'DP-3' not found"
    );
    assert_eq!(
        choose_output(&two, None).unwrap_err().to_string(),
        "multiple outputs; specify -o NAME among: DP-1, DP-2"
    );
    assert!(matches!(choose_output(&[], None), Err(CaptureError::NoOutputs)));
}

#[test]
fn the_whole_layout_is_the_bounding_box() {
    let two = [output("DP-1", -4, 0, 4, 4, 1), output("DP-2", 0, 2, 8, 6, 1)];
    assert_eq!(whole_layout(&two).unwrap(), Region { x: -4, y: 0, w: 12, h: 8 });
    assert!(matches!(whole_layout(&[]), Err(CaptureError::NoOutputs)));
}

fn solid(w: u32, h: u32, v: u8) -> CapturedImage {
    CapturedImage { width: w, height: h, rgba: vec![v; (w * h * 4) as usize] }
}

#[test]
fn a_region_on_one_output_keeps_its_pixels() {
    let caps = [OutputCapture { output: output("DP-1", 0, 0, 2, 2, 2), image: solid(4, 4, 7) }];
    let img = composite(&caps, Region { x: 1, y: 1, w: 1, h: 1 }).unwrap();
    assert_eq!((img.width, img.height), (2, 2));
    assert_eq!(img.rgba, vec![7; 16]);
}

#[test]
fn a_region_on_two_outputs_is_put_together_at_logical_size() {
    let caps = [
        OutputCapture { output: output("DP-1", 0, 0, 2, 2, 2), image: solid(4, 4, 7) },
        OutputCapture { output: output("DP-2", 2, 0, 2, 2, 1), image: solid(2, 2, 9) },
    ];
    let img = composite(&caps, Region { x: 1, y: 0, w: 2, h: 1 }).unwrap();
    assert_eq!((img.width, img.height), (2, 1));
    assert_eq!(img.rgba, vec![7, 7, 7, 7, 9, 9, 9, 9]);
    assert!(matches!(
        composite(&caps, Region { x: 0, y: 0, w: 0, h: 1 }),
        Err(CaptureError::EmptyRegion)
    ));
    assert!(matches!(
        composite(&caps, Region { x: 50, y: 0, w: 1, h: 1 }),
        Err(CaptureError::RegionOffscreen)
    ));
}

#[test]
fn only_the_outputs_a_region_covers_are_captured() {
    let two = [output("DP-1", 0, 0, 2, 2, 1), output("DP-2", 2, 0, 2, 2, 1)];
    let r = Region { x: 2, y: 0, w: 1, h: 1 };
    assert_eq!(outputs_in_region(&two, r).unwrap().len(), 1);
    assert_eq!(
        logical_to_physical(&output("DP-1", 10, 10, 100, 100, 2), Region { x: 15, y: 10, w: 5, h: 1 }),
        Region { x: 10, y: 0, w: 10, h: 2 }
    );
}

#[test]
fn resizing_resamples_and_an_equal_size_does_not() {
    let img = CapturedImage { width: 2, height: 1, rgba: vec![0, 0, 0, 255, 200, 200, 200, 255] };
    let one = resize(img, 1, 1);
    assert_eq!((one.width, one.height), (1, 1));
    assert_eq!(one.rgba, vec![100, 100, 100, 255]);
    assert_eq!(resize(solid(3, 3, 5), 3, 3).rgba, vec![5; 36]);
}

#[test]
fn a_capture_is_written_as_png() {
    let bytes = encode_png(&solid(2, 2, 9)).unwrap();
    assert_eq!(&bytes[..8], &[0x89, b'P', b'N', b'G', 0x0d, 0x0a, 0x1a, 0x0a]);
    let back = image::load_from_memory(&bytes).unwrap().to_rgba8();
    assert_eq!((back.width(), back.height()), (2, 2));
    assert_eq!(back.into_raw(), vec![9; 16]);
    let short = CapturedImage { width: 2, height: 2, rgba: vec![0; 3] };
    assert!(encode_png(&short).is_err());
}

#[test]
fn only_a_failed_gpu_frame_is_captured_again() {
    let refused = || Err(CaptureError::msg("import failed"));
    match capture_to_image(true, false, refused()) {
        Attempt::ThroughShm(e) => assert_eq!(e.to_string(), "import failed"),
        Attempt::Done(_) => panic!("a refused dma-buf is captured again"),
    }
    assert!(matches!(
        capture_to_image(true, true, refused()),
        Attempt::Done(Err(CaptureError::Backend { .. }))
    ));
    assert!(matches!(
        capture_to_image(false, false, refused()),
        Attempt::Done(Err(CaptureError::Backend { .. }))
    ));
    let img = CapturedImage { width: 1, height: 1, rgba: vec![1, 2, 3, 4] };
    match capture_to_image(true, false, Ok(img)) {
        Attempt::Done(Ok(img)) => assert_eq!(img.rgba, vec![1, 2, 3, 4]),
        _ => panic!("a frame that was read is the result"),
    }
}

#[test]
fn a_region_written_as_text_reads_back() {
    for r in [
        Region { x: 10, y: 20, w: 300, h: 400 },
        Region { x: -5, y: 0, w: 1, h: 1 },
        Region { x: i32::MIN, y: i32::MAX, w: u32::MAX, h: 1 },
    ] {
        let text = format!("{},{} {}x{}", r.x, r.y, r.w, r.h);
        let back = parse_geometry(&text).unwrap();
        assert_eq!((back.x, back.y, back.w, back.h), (r.x, r.y, r.w, r.h));
    }
}

#[test]
fn pixels_are_those_of_double_precision() {
    // The ratio is rounded before it is multiplied: an exact product would give a pixel more.
    let points = |w: u32| Region { x: 0, y: 0, w, h: 1 };
    let at = |x: i32| Region { x, y: 0, w: 1, h: 1 };
    assert_eq!(scale_into_capture(points(98), (1, 1), at(49)).x, 0);
    assert_eq!(scale_into_capture(points(2000), (2300, 1), points(50)).w, 57);
    for (w, c) in [(98u32, 1i32), (2000, 2300), (3, 7), (1366, 2049), (u32::MAX, i32::MAX)] {
        for x in [0, 1, 49, 50, -49, 1365, i32::MAX, i32::MIN + 1] {
            let s = c as f64 / w as f64;
            let r = scale_into_capture(points(w), (c, 1), at(x));
            assert_eq!(r.x, (x as f64 * s).round() as i32, "{x} * {c} / {w}");
        }
    }
}
