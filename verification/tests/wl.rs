//! Windows, outputs, pixels and capture sessions.

use wlr_capture::image::{
    convert, flip_vertically, fourcc, CapturedImage, PixelLayout, ShmFormat,
};
use wlr_capture::region::Region;
use wlr_capture::session::{pick_dmabuf_format, SessionId, SessionIds, DRM_MOD_INVALID};
use wlr_capture::wl::{
    activate_window, active_window, adopt_app_ids, apply_output_event, apply_zwlr_event,
    complete_app_ids, dup_index, has_activated, logical_dims, select_protocol, Activation, Output,
    OutputEvent, Protocol, Toplevel, ToplevelEvent, Transform, WindowIdentity, WindowList,
    ZwlrEvent, ZwlrToplevel,
};

const IMAGE_COPY_GLOBALS: [&str; 2] = [
    "ext_image_copy_capture_manager_v1",
    "ext_output_image_capture_source_manager_v1",
];
const SCREENCOPY_GLOBAL: &str = "zwlr_screencopy_manager_v1";

/// Bytes-per-pixel (hence stride) must match the advertised format. Bgr888 is 24-bit, so
/// stride = width*3, not *4.
#[test]
fn pixel_layout_stride_and_alpha() {
    assert_eq!(PixelLayout::of(ShmFormat::Bgr888).unwrap().bpp, 3);
    assert_eq!(PixelLayout::of(ShmFormat::Rgb888).unwrap().bpp, 3);
    assert_eq!(PixelLayout::of(ShmFormat::Xrgb8888).unwrap().bpp, 4);
    assert_eq!(PixelLayout::of(ShmFormat::Argb8888).unwrap().bpp, 4);

    assert!(PixelLayout::of(ShmFormat::Bgr888).unwrap().a.is_none());
    assert!(PixelLayout::of(ShmFormat::Xrgb8888).unwrap().a.is_none());
    assert_eq!(PixelLayout::of(ShmFormat::Argb8888).unwrap().a, Some(3));
    assert_eq!(PixelLayout::of(ShmFormat::Abgr8888).unwrap().a, Some(3));
}

#[test]
fn activated_is_read_from_the_state_array() {
    let flags = |v: &[u32]| -> Vec<u8> { v.iter().flat_map(|s| s.to_ne_bytes()).collect() };
    let (maximized, activated) = (0u32, 2u32);

    assert!(has_activated(&flags(&[maximized, activated])));
    assert!(!has_activated(&flags(&[maximized])));
    // No state at all: the window is not focused (and sends this on unfocus).
    assert!(!has_activated(&[]));
}

#[test]
fn dup_index_counts_identical_windows_before_this_one() {
    let windows = [("foot", "a"), ("firefox", "b"), ("foot", "a")];
    assert_eq!(dup_index(&windows[..0], "foot", "a"), 0);
    assert_eq!(dup_index(&windows[..2], "foot", "a"), 1);
    // A different title is a different window, however alike the app.
    assert_eq!(dup_index(&windows[..3], "foot", "z"), 0);
}

#[test]
fn xwayland_window_adopts_its_x11_class() {
    // What Sway reports for a Steam window: nothing through `ext`, `steam` through zwlr. The
    // windows both protocols name are left alone.
    let ext = [("firefox", "Issue #13"), ("", "Steam")];
    let zwlr = [("firefox", "Issue #13"), ("steam", "Steam")];
    assert_eq!(adopt_app_ids(&ext, &zwlr), vec![None, Some("steam")]);
}

#[test]
fn a_window_zwlr_does_not_know_keeps_no_app_id() {
    // A real system surface: no app-id anywhere, so it stays unnamed.
    let ext = [("", "Notification"), ("", "Steam")];
    let zwlr = [("steam", "Steam")];
    assert_eq!(adopt_app_ids(&ext, &zwlr), vec![None, Some("steam")]);
    // Listed by zwlr but unnamed there too: still nothing to adopt.
    assert_eq!(adopt_app_ids(&[("", "Bar")], &[("", "Bar")]), vec![None]);
}

#[test]
fn a_named_window_keeps_its_counterpart_to_itself() {
    // Two windows share the title "foot"; one is named by both protocols. The nameless one
    // must adopt the *other* zwlr entry, not the taken one.
    let ext = [("btop", "foot"), ("", "foot")];
    let zwlr = [("btop", "foot"), ("java-swing", "foot")];
    assert_eq!(adopt_app_ids(&ext, &zwlr), vec![None, Some("java-swing")]);
    // Order-independent: the same holds when the nameless window comes first.
    let ext = [("", "foot"), ("btop", "foot")];
    assert_eq!(adopt_app_ids(&ext, &zwlr), vec![Some("java-swing"), None]);
}

#[test]
fn identical_windows_are_matched_one_to_one() {
    let ext = [("", "Console"), ("", "Console")];
    let zwlr = [("java", "Console"), ("java", "Console")];
    assert_eq!(adopt_app_ids(&ext, &zwlr), vec![Some("java"), Some("java")]);
    // One zwlr entry for two nameless windows: only the first can take it.
    let zwlr = [("java", "Console")];
    assert_eq!(adopt_app_ids(&ext, &zwlr), vec![Some("java"), None]);
}

#[test]
fn pixel_layout_unknown_format_is_none() {
    // A format that is not decoded should be reported, not silently mishandled. C8.
    assert!(PixelLayout::of(ShmFormat::Other(fourcc(b'C', b'8', b' ', b' '))).is_none());
}

#[test]
fn region_intersect() {
    let a = Region { x: 0, y: 0, w: 10, h: 10 };
    let b = Region { x: 5, y: 5, w: 10, h: 10 };
    assert_eq!(a.intersect(&b), Some(Region { x: 5, y: 5, w: 5, h: 5 }));
    // Negative origin (selection partly off the image) clamps correctly.
    let c = Region { x: -3, y: -3, w: 6, h: 6 };
    assert_eq!(a.intersect(&c), Some(Region { x: 0, y: 0, w: 3, h: 3 }));
    // Disjoint → None.
    let d = Region { x: 100, y: 100, w: 1, h: 1 };
    assert_eq!(a.intersect(&d), None);
}

#[test]
fn regions_at_the_edges_of_the_number_line_overlap() {
    let far = Region { x: i32::MAX, y: i32::MAX, w: u32::MAX, h: u32::MAX };
    assert_eq!(far.intersect(&far), Some(far));
    let touching = Region { x: 10, y: 0, w: 5, h: 5 };
    assert_eq!(Region { x: 0, y: 0, w: 10, h: 10 }.intersect(&touching), None);
    assert!(Region { x: 1, y: 1, w: 0, h: 9 }.is_empty());
    assert!(!Region { x: 1, y: 1, w: 1, h: 9 }.is_empty());
}

/// A 2×2 RGBA image: four distinct pixels, to verify pixel/crop addressing.
fn img_2x2() -> CapturedImage {
    CapturedImage {
        width: 2,
        height: 2,
        rgba: vec![
            1, 1, 1, 255, 2, 2, 2, 255, // row 0: (0,0)=1, (1,0)=2
            3, 3, 3, 255, 4, 4, 4, 255, // row 1: (0,1)=3, (1,1)=4
        ],
    }
}

#[test]
fn captured_pixel_and_crop() {
    let img = img_2x2();
    assert_eq!(img.pixel(0, 0), Some([1, 1, 1, 255]));
    assert_eq!(img.pixel(1, 1), Some([4, 4, 4, 255]));
    assert_eq!(img.pixel(2, 0), None); // out of bounds

    // Crop the bottom-right 1×1 pixel.
    let c = img.crop(Region { x: 1, y: 1, w: 1, h: 1 });
    assert_eq!((c.width, c.height), (1, 1));
    assert_eq!(c.rgba, vec![4, 4, 4, 255]);

    // Crop overrunning the bounds clamps to the overlap.
    let c2 = img.crop(Region { x: 1, y: 0, w: 5, h: 5 });
    assert_eq!((c2.width, c2.height), (1, 2));
    assert_eq!(c2.rgba, vec![2, 2, 2, 255, 4, 4, 4, 255]);
}

#[test]
fn captured_blit_into() {
    // Blit the 2×2 image into a 3×2 black canvas at x=1, clipping the overflow.
    let img = img_2x2();
    let (dw, dh) = (3u32, 2u32);
    let mut dst = vec![0u8; (dw * dh * 4) as usize];
    img.blit_into(&mut dst, dw, dh, 1, 0);
    // Column 0 stays black; columns 1..3 get the image's two columns.
    assert_eq!(&dst[0..4], &[0, 0, 0, 0]); // (0,0)
    assert_eq!(&dst[4..8], &[1, 1, 1, 255]); // (1,0) = img (0,0)
    assert_eq!(&dst[8..12], &[2, 2, 2, 255]); // (2,0) = img (1,0)
    assert_eq!(&dst[12..16], &[0, 0, 0, 0]); // (0,1)
    assert_eq!(&dst[16..20], &[3, 3, 3, 255]); // (1,1) = img (0,1)
}

fn globals(names: &[&str]) -> Vec<(String, u32)> {
    names.iter().map(|n| ((*n).to_string(), 1)).collect()
}

#[test]
fn protocol_selection_prefers_image_copy_capture() {
    let ext = [IMAGE_COPY_GLOBALS[0], IMAGE_COPY_GLOBALS[1]];
    assert_eq!(
        select_protocol(&globals(&ext), false),
        Some(Protocol::ImageCopyCapture)
    );
    // Only the older protocol: that is what the engine drives.
    assert_eq!(
        select_protocol(&globals(&[SCREENCOPY_GLOBAL]), false),
        Some(Protocol::Screencopy)
    );
    // Both: ext wins (it captures windows too).
    let both = [ext[0], ext[1], SCREENCOPY_GLOBAL];
    assert_eq!(
        select_protocol(&globals(&both), false),
        Some(Protocol::ImageCopyCapture)
    );
    // A half-advertised ext (manager without the output source) is not usable.
    assert_eq!(select_protocol(&globals(&ext[..1]), false), None);
    assert_eq!(select_protocol(&globals(&[]), false), None);
}

#[test]
fn the_older_protocol_can_be_forced_where_it_is_there() {
    let both = [IMAGE_COPY_GLOBALS[0], IMAGE_COPY_GLOBALS[1], SCREENCOPY_GLOBAL];
    assert_eq!(select_protocol(&globals(&both), true), Some(Protocol::Screencopy));
    assert_eq!(
        select_protocol(&globals(&IMAGE_COPY_GLOBALS), true),
        Some(Protocol::ImageCopyCapture)
    );
}

#[test]
fn protocol_interface_names_are_the_protocol_names() {
    assert_eq!(
        Protocol::ImageCopyCapture.interface(),
        "ext-image-copy-capture-v1"
    );
    assert_eq!(Protocol::Screencopy.interface(), "zwlr-screencopy-v1");
}

#[test]
fn dmabuf_format_without_modifiers_is_left_to_the_driver() {
    let xr24 = fourcc(b'X', b'R', b'2', b'4');
    // A bare fourcc (what the older protocol announces) is usable, with no layout.
    assert_eq!(
        pick_dmabuf_format(&[(xr24, vec![])]),
        Some((xr24, Vec::new()))
    );
    // An explicit list keeps its modifiers, minus the INVALID sentinel.
    assert_eq!(
        pick_dmabuf_format(&[(xr24, vec![DRM_MOD_INVALID, 7])]),
        Some((xr24, vec![7]))
    );
    // Only INVALID was offered for a format: nothing to allocate with.
    assert_eq!(pick_dmabuf_format(&[(xr24, vec![DRM_MOD_INVALID])]), None);
}

#[test]
fn flip_vertically_reverses_row_order() {
    // 2×2: rows swap, pixels within a row keep their order.
    let mut img = img_2x2();
    flip_vertically(&mut img);
    assert_eq!(img.pixel(0, 0), Some([3, 3, 3, 255]));
    assert_eq!(img.pixel(1, 0), Some([4, 4, 4, 255]));
    assert_eq!(img.pixel(0, 1), Some([1, 1, 1, 255]));
    assert_eq!(img.pixel(1, 1), Some([2, 2, 2, 255]));
    // Flipping twice is the identity.
    flip_vertically(&mut img);
    assert_eq!(img.rgba, img_2x2().rgba);
}

#[test]
fn flip_vertically_keeps_the_middle_row_of_an_odd_image() {
    // 1×3, one byte-quad per row: only the outer rows move.
    let mut img = CapturedImage {
        width: 1,
        height: 3,
        rgba: vec![1, 1, 1, 255, 2, 2, 2, 255, 3, 3, 3, 255],
    };
    flip_vertically(&mut img);
    assert_eq!(img.rgba, vec![3, 3, 3, 255, 2, 2, 2, 255, 1, 1, 1, 255]);
}

#[test]
fn session_ids_are_distinct() {
    let mut ids = SessionIds::new();
    let (a, b) = (SessionId::next(&mut ids), SessionId::next(&mut ids));
    assert_ne!(a, b);
}

#[test]
fn output_logical_dims_transform() {
    // 4K at scale 2 → 1920×1080 logical.
    assert_eq!(logical_dims(3840, 2160, 2, Transform::Normal), (1920, 1080));
    // 90°/270° swap width and height.
    assert_eq!(logical_dims(3840, 2160, 2, Transform::Rotated90), (1080, 1920));
    assert_eq!(
        logical_dims(3840, 2160, 2, Transform::Flipped270),
        (1080, 1920)
    );
    // 180° keeps orientation; scale 0 is treated as 1.
    assert_eq!(logical_dims(1000, 500, 0, Transform::Rotated180), (1000, 500));
}

#[test]
fn pixels_are_converted_row_by_row_at_their_stride() {
    let layout = PixelLayout::of(ShmFormat::Xrgb8888).unwrap();
    // One pixel per row of blue, green, red, padding; rows are 8 bytes apart.
    let raw = [1u8, 2, 3, 9, 0, 0, 0, 0, 4, 5, 6, 9, 0, 0, 0, 0];
    let img = convert(&raw, 1, 2, 8, &layout);
    assert_eq!((img.width, img.height), (1, 2));
    assert_eq!(img.rgba, vec![3, 2, 1, 255, 6, 5, 4, 255]);
    let argb = PixelLayout::of(ShmFormat::Argb8888).unwrap();
    assert_eq!(convert(&raw, 1, 2, 8, &argb).rgba, vec![3, 2, 1, 9, 6, 5, 4, 9]);
}

fn window(handle: u64, identifier: &str, app_id: &str, title: &str) -> Toplevel {
    Toplevel {
        handle,
        identifier: identifier.into(),
        app_id: app_id.into(),
        title: title.into(),
    }
}

fn zwlr(handle: u64, app_id: &str, title: &str, activated: bool) -> ZwlrToplevel {
    ZwlrToplevel { handle, app_id: app_id.into(), title: title.into(), activated }
}

#[test]
fn unnamed_windows_are_completed_in_place() {
    let mut list = vec![window(1, "a", "", "Steam"), window(2, "b", "foot", "vim")];
    complete_app_ids(&mut list, &vec![zwlr(7, "steam", "Steam", false), zwlr(8, "foot", "vim", true)]);
    assert_eq!(list[0].app_id, "steam");
    assert_eq!(list[1].app_id, "foot");
    // Nothing is left to adopt the second time.
    complete_app_ids(&mut list, &vec![zwlr(7, "other", "Steam", false)]);
    assert_eq!(list[0].app_id, "steam");
}

#[test]
fn a_window_is_listed_once_described_and_gone_once_closed() {
    let mut list = WindowList::new();
    list.announce(4);
    list.event(4, ToplevelEvent::Identifier("id".into()));
    list.event(4, ToplevelEvent::Title("title".into()));
    assert_eq!(list.toplevels.len(), 0);
    list.event(4, ToplevelEvent::AppId("app".into()));
    list.event(4, ToplevelEvent::Done);
    assert_eq!(list.toplevels.len(), 1);
    assert_eq!(list.toplevels[0].title, "title");
    list.event(4, ToplevelEvent::Closed);
    assert_eq!(list.toplevels.len(), 0);
    assert_eq!(list.pending.len(), 0);
}

#[test]
fn the_active_window_leads_back_to_its_handle() {
    let mut v: Vec<ZwlrToplevel> = Vec::new();
    for handle in [10u64, 11, 12] {
        v.push(zwlr(handle, "", "", false));
        apply_zwlr_event(&mut v, handle, ZwlrEvent::AppId("foot".into()));
        apply_zwlr_event(&mut v, handle, ZwlrEvent::Title("vim".into()));
    }
    apply_zwlr_event(&mut v, 11, ZwlrEvent::Activated(true));
    let who = active_window(&v).unwrap();
    assert_eq!((who.app_id.as_str(), who.title.as_str(), who.dup_index), ("foot", "vim", 1));
    assert_eq!(activate_window(Some(&v), &who).unwrap(), Activation::Zwlr(11));
    // Without the portable protocol the other one takes over.
    assert_eq!(activate_window(None, &who).unwrap(), Activation::Cosmic);
    let lost = WindowIdentity { app_id: "foot".into(), title: "logs".into(), dup_index: 0 };
    assert_eq!(
        activate_window(Some(&v), &lost).unwrap_err().to_string(),
        "window to activate not found: foot / logs"
    );
    apply_zwlr_event(&mut v, 11, ZwlrEvent::Closed);
    assert!(active_window(&v).is_none());
    assert_eq!(v.len(), 2);
}

#[test]
fn authoritative_geometry_wins_over_the_derived_one() {
    let mut outputs: Vec<Output> = Vec::new();
    apply_output_event(&mut outputs, 3, OutputEvent::Geometry { x: 5, y: 6, transform: Some(Transform::Rotated90) });
    apply_output_event(&mut outputs, 3, OutputEvent::Mode { current: true, width: 3840, height: 2160 });
    apply_output_event(&mut outputs, 3, OutputEvent::Mode { current: false, width: 640, height: 480 });
    apply_output_event(&mut outputs, 3, OutputEvent::Scale(2));
    apply_output_event(&mut outputs, 3, OutputEvent::Name("DP-1".into()));
    assert_eq!(outputs.len(), 1);
    assert_eq!(outputs[0].logical_size(), (1080, 1920));
    assert_eq!(outputs[0].capture_size(), (2160, 3840));
    apply_output_event(&mut outputs, 3, OutputEvent::LogicalPosition { x: 100, y: 50 });
    apply_output_event(&mut outputs, 3, OutputEvent::LogicalSize { width: 1440, height: 2560 });
    assert_eq!(outputs[0].logical_rect(), Region { x: 100, y: 50, w: 1440, h: 2560 });
}

#[test]
fn naming_windows_a_second_time_changes_nothing() {
    let mut windows = vec![
        window(1, "a", "", "same"),
        window(2, "b", "foot", "same"),
        window(3, "c", "", "same"),
        window(4, "d", "", "other"),
    ];
    let listed = vec![zwlr(7, "foot", "same", false), zwlr(8, "Steam", "same", false)];
    complete_app_ids(&mut windows, &listed);
    let names: Vec<String> = windows.iter().map(|w| w.app_id.clone()).collect();
    assert_eq!(names, ["Steam", "foot", "", ""]);
    complete_app_ids(&mut windows, &listed);
    let again: Vec<String> = windows.iter().map(|w| w.app_id.clone()).collect();
    assert_eq!(again, names);
}
