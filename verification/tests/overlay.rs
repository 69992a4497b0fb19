//! The frozen overlay.

use wlr_capture::keys::{KEY_ESCAPE, KEY_RETURN};
use wlr_capture::overlay::{
    capture_for, cursor_on, hex_readout, loupe, loupe_origin, sample, sample_pixel, size_label,
    Freeze, Mode, Outcome, PointerEvent, Surface,
};
use wlr_capture::region::Region;

fn surfaces() -> Vec<Surface> {
    vec![
        Surface { logical_x: -100, logical_y: 0, width: 100, height: 200 },
        Surface { logical_x: 0, logical_y: 0, width: 300, height: 200 },
    ]
}

/// A position in points, in 256ths.
fn at(x: f64) -> i32 {
    (x * 256.0) as i32
}

#[test]
fn a_drag_across_outputs_selects_its_rectangle() {
    let mut f = Freeze::new(Mode::Region, surfaces());
    f.on_pointer(PointerEvent::Press { surface: 1, x: at(10.5), y: at(20.25) });
    f.on_pointer(PointerEvent::Motion { surface: 0, x: at(90.0), y: at(50.0) });
    assert!(f.take_dirty());
    assert!(!f.take_dirty());
    assert_eq!(f.selection(), Some(Region { x: -10, y: 20, w: 21, h: 30 }));
    f.on_pointer(PointerEvent::Release { surface: 0, x: at(90.0), y: at(50.0) });
    assert!(f.done);
    assert_eq!(f.select_region(), Some(Region { x: -10, y: 20, w: 21, h: 30 }));
}

#[test]
fn a_click_without_a_drag_keeps_waiting() {
    let mut f = Freeze::new(Mode::Region, surfaces());
    f.on_pointer(PointerEvent::Press { surface: 1, x: 0, y: 0 });
    f.on_pointer(PointerEvent::Release { surface: 1, x: 0, y: 0 });
    assert!(!f.done && f.start.is_none());
    f.on_key(KEY_RETURN);
    assert!(!f.done);
    f.on_key(KEY_ESCAPE);
    assert!(f.done);
    assert_eq!(f.select_region(), None);
}

#[test]
fn a_point_is_rounded_away_from_zero() {
    let mut f = Freeze::new(Mode::Point, surfaces());
    f.on_pointer(PointerEvent::Enter { surface: 0, x: at(99.5), y: at(1.5) });
    f.on_key(KEY_RETURN);
    assert_eq!(f.pick_point(), Some((-1, 2)));
    let mut f = Freeze::new(Mode::Point, surfaces());
    f.on_pointer(PointerEvent::Press { surface: 7, x: 0, y: 0 });
    assert!(!f.done, "a surface that is not the overlay's");
    f.on_pointer(PointerEvent::Press { surface: 1, x: at(2.4), y: at(2.6) });
    assert_eq!(f.result, Some(Outcome::Point { x: 2, y: 3 }));
}

#[test]
fn the_magnifier_only_follows_the_cursor() {
    let mut f = Freeze::new(Mode::Magnify, surfaces());
    f.on_pointer(PointerEvent::Press { surface: 1, x: 5, y: 5 });
    f.on_key(KEY_RETURN);
    assert!(!f.done);
    f.on_pointer(PointerEvent::Motion { surface: 1, x: 512, y: 256 });
    assert_eq!(f.pointer, Some((512, 256)));
    f.on_pointer(PointerEvent::Leave);
    assert_eq!(f.pointer, None);
    f.closed();
    assert!(f.done && f.result.is_none());
}

#[test]
fn a_surface_is_drawn_once_it_has_a_size() {
    let mut f = Freeze::new(
        Mode::Region,
        vec![Surface { logical_x: 0, logical_y: 0, width: 0, height: 0 }],
    );
    assert!(!f.configure(0, 0, 0));
    assert!(f.configure(0, 10, 20));
    assert!(f.configure(0, 0, 0));
    assert_eq!(f.surfaces[0].height, 20);
}

#[test]
fn the_loupe_samples_exact_pixels() {
    // A 2×1 image on a surface 4 points wide: two points to the pixel.
    assert_eq!(sample_pixel(0, 2, 4), 0);
    assert_eq!(sample_pixel(511, 2, 4), 0);
    assert_eq!(sample_pixel(512, 2, 4), 1);
    assert_eq!(sample_pixel(1024, 2, 4), 2);
    let rgba = vec![1, 2, 3, 255, 4, 5, 6, 255];
    assert_eq!(sample(&rgba, 2, 1, 1, 0), Some((4, 5, 6)));
    assert_eq!(sample(&rgba, 2, 1, 2, 0), None);
    assert_eq!(sample(&rgba, 2, 1, -1, 0), None);
    let grid = loupe(&rgba, 2, 1, 0, 0);
    assert_eq!(grid.len(), 169);
    assert_eq!(grid[6 * 13 + 6], Some((1, 2, 3)));
    assert_eq!(grid[6 * 13 + 7], Some((4, 5, 6)));
    assert_eq!(grid[0], None);
    assert_eq!(hex_readout(0xab, 0, 0x0c), "#AB000C");
    assert_eq!(size_label(&Region { x: 0, y: 0, w: 640, h: 480 }), "640 × 480");
}

#[test]
fn the_loupe_flips_at_the_edges() {
    let s = Surface { logical_x: 0, logical_y: 0, width: 1000, height: 800 };
    assert_eq!(loupe_origin(&s, 100 * 256, 100 * 256), (120 * 256, 120 * 256));
    assert_eq!(loupe_origin(&s, 990 * 256, 790 * 256), (827 * 256, 601 * 256));
    let tiny = Surface { logical_x: 0, logical_y: 0, width: 10, height: 10 };
    assert_eq!(loupe_origin(&tiny, 0, 0), (512, 512));
    assert_eq!(cursor_on(&s, Some((256, 256))), Some((256, 256)));
    assert_eq!(cursor_on(&s, Some((-1, 256))), None);
    assert_eq!(cursor_on(&s, None), None);
    let names = vec!["DP-1".to_string(), "DP-2".to_string()];
    assert_eq!(capture_for(&names, "DP-2"), Some(1));
    assert_eq!(capture_for(&names, "DP-3"), None);
}

#[test]
fn the_loupe_goes_by_single_precision() {
    // 63 points into 1920 of them: an exact product would be on the next pixel.
    assert_eq!(sample_pixel(63 * 256, 1920, 1920), 62);
    for (size, extent) in [(1920u32, 1920u32), (2560, 1920), (3840, 2560), (7, 3), (1, 16_777_219)] {
        for at in [0i64, 1, 255, 256, 511, 767] {
            let c = at as f32 / 256.0;
            let px = ((c / extent as f32) * size as f32).floor() as i64;
            assert_eq!(sample_pixel(at, size, extent), px, "{at} of {extent} on {size}");
        }
    }
    // Far from the origin a place is rounded before the surface's corner is taken off.
    let s = Surface { logical_x: 16_777_217, logical_y: 0, width: 100, height: 100 };
    assert_eq!(cursor_on(&s, Some((16_777_219 * 256, 0))), Some((4 * 256, 0)));
}
