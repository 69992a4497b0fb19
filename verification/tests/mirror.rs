//! The live mirror's tile.

use wlr_capture::image::CapturedImage;
use wlr_capture::keys::{KEY_C, KEY_ESCAPE, KEY_MINUS, KEY_PLUS, KEY_R, KEY_SPACE};
use wlr_capture::mirror::{
    capture_step, min_size_for, Content, Happened, Keyed, Limits, Next, PipMsg, Pressed, Shown,
    Tile, ACCENT_FRAMES, BADGE, FAINTEST, OPAQUE,
};

fn frame(w: usize, h: usize) -> PipMsg<()> {
    PipMsg::Shm { w, h, rgba: vec![] }
}

#[test]
fn a_tile_follows_its_sources_aspect() {
    let mut t = Tile::toplevel(false);
    assert_eq!((t.width, t.height), (480, 270));
    assert!(t.on_msg(&frame(1000, 500), 0));
    assert_eq!((t.width, t.height), (480, 240));
    // Off by less than a point: left alone.
    t.on_msg(&frame(1001, 500), 0);
    assert_eq!((t.width, t.height), (480, 240));
    assert_eq!(t.snap(300, 900), (300, 150));
    assert_eq!(t.snap(50, 900), (120, 25));
    t.configure(Some((640, 999)));
    assert_eq!((t.width, t.height), (640, 320));
    t.configure(None);
    assert_eq!(t.expanded, (640, 320));
    assert_eq!(min_size_for(Some((1, 1))), (120, 120));
    assert_eq!(min_size_for(None), (120, 67));
}

#[test]
fn collapsing_and_opening_gives_the_size_back() {
    let mut t = Tile::toplevel(false);
    assert_eq!(t.set_collapsed(true), Some(Limits { min: (BADGE, BADGE), fixed: true }));
    assert_eq!((t.width, t.height), (BADGE, BADGE));
    assert_eq!(t.set_collapsed(true), None);
    t.configure(Some((10, 10)));
    assert_eq!((t.width, t.height), (BADGE, BADGE));
    assert_eq!(t.on_press(), Pressed::Opened);
    assert_eq!((t.width, t.height), (480, 270));
    // Activity pops it open, with a border for a while.
    assert_eq!(t.on_key(KEY_C), Keyed::Resized);
    assert!(t.on_msg(&frame(1600, 900), 0));
    assert!(!t.collapsed);
    assert_eq!(t.accent, ACCENT_FRAMES);
    t.painted();
    assert_eq!(t.accent, ACCENT_FRAMES - 1);
}

#[test]
fn a_frozen_tile_drops_frames() {
    let mut t = Tile::toplevel(false);
    assert_eq!(t.on_key(KEY_SPACE), Keyed::Repaint);
    assert!(!t.on_msg(&frame(100, 100), 0));
    assert_eq!(t.aspect, Some((100, 100)));
    assert_eq!(t.height, 480);
}

#[test]
fn a_region_keeps_its_own_aspect() {
    let mut t = Tile::region(10, 0, 200, 0, false);
    assert_eq!((t.width, t.height), (120, 1));
    t.on_msg(&PipMsg::Dmabuf { frame: (), width: 5, height: 9 }, 0);
    assert_eq!(t.aspect, Some((200, 1)));
}

#[test]
fn presses_hit_the_toolbar_the_grip_or_the_body() {
    let mut t = Tile::toplevel(true);
    t.hovered = true;
    t.pointer = (460 * 256, 10 * 256);
    assert_eq!(t.on_press(), Pressed::Closed);
    assert!(t.closing);
    let mut t = Tile::toplevel(true);
    t.pointer = (460 * 256, 10 * 256);
    assert_eq!(t.on_press(), Pressed::Move, "no toolbar without the pointer over it");
    t.hovered = true;
    t.pointer = (430 * 256, 28 * 256);
    assert_eq!(t.on_press(), Pressed::Collapsed);
    t.set_collapsed(false);
    t.pointer = (480 * 256, 270 * 256);
    assert_eq!(t.on_press(), Pressed::Resize);
    t.pointer = (5, 5);
    assert_eq!(t.on_press(), Pressed::Move);
}

#[test]
fn opacity_stays_between_a_fifth_and_one() {
    let mut t = Tile::toplevel(false);
    assert_eq!(t.on_key(KEY_PLUS), Keyed::Nothing);
    for _ in 0..20 {
        t.on_wheel(3);
    }
    assert_eq!(t.opacity, FAINTEST);
    assert_eq!(t.opacity as f32 / OPAQUE as f32, 0.2);
    assert_eq!(t.on_key(KEY_MINUS), Keyed::Nothing);
    assert!(t.on_wheel(-1));
    assert_eq!(t.opacity as f32 / OPAQUE as f32, 0.2f32 + 0.1f32);
    assert!(!t.on_wheel(0));
    assert_eq!(t.on_key(KEY_R), Keyed::Nothing);
    assert!(!t.closing);
    t.relaunches = true;
    assert_eq!(t.on_key(KEY_R), Keyed::Relaunch);
    assert!(t.closing);
    let mut t = Tile::toplevel(false);
    t.on_key(KEY_ESCAPE);
    assert!(t.over(0));
}

#[test]
fn a_notice_lingers_when_the_source_goes() {
    let mut t = Tile::toplevel(false);
    assert!(t.on_msg(&PipMsg::<()>::Gone, 1000));
    t.on_msg(&PipMsg::<()>::Gone, 2000);
    assert_eq!(t.gone_since, Some(1000));
    assert!(!t.over(2399));
    assert!(t.over(2400));
}

#[test]
fn the_latest_kind_of_frame_is_drawn() {
    let mut c = Content { native: false, texture: false, icon: false, gone: false };
    assert_eq!(c.tex(), Shown::Loading);
    c.icon = true;
    assert_eq!(c.tex(), Shown::Icon);
    assert!(!c.pump(&frame(0, 4), false));
    assert!(c.pump(&frame(4, 4), false));
    assert_eq!(c.tex(), Shown::Texture);
    let gpu = PipMsg::Dmabuf { frame: (), width: 4, height: 4 };
    c.pump(&gpu, false);
    assert_eq!(c.tex(), Shown::Texture);
    c.pump(&gpu, true);
    assert_eq!(c.tex(), Shown::Native);
    c.pump(&frame(4, 4), false);
    assert_eq!(c.tex(), Shown::Texture);
    c.pump(&PipMsg::<()>::Gone, false);
    assert!(c.gone);
}

#[test]
fn frames_are_forwarded_until_the_source_ends_or_nobody_listens() {
    let img = CapturedImage { width: 1, height: 1, rgba: vec![1, 2, 3, 4] };
    match capture_step(Happened::<()>::Shm(img)) {
        Next::Send(PipMsg::Shm { w: 1, h: 1, rgba }) => assert_eq!(rgba, vec![1, 2, 3, 4]),
        _ => panic!("not forwarded"),
    }
    let gpu = Happened::Dmabuf { frame: 7, width: 2, height: 3 };
    assert!(matches!(
        capture_step(gpu),
        Next::Send(PipMsg::Dmabuf { frame: 7, width: 2, height: 3 })
    ));
    assert!(matches!(capture_step(Happened::<()>::Ended), Next::Last(PipMsg::Gone)));
    assert!(matches!(capture_step(Happened::<()>::Unreachable), Next::Last(PipMsg::Gone)));
    assert!(matches!(capture_step(Happened::<()>::Unheard), Next::Stop));
}

#[test]
fn opacity_goes_in_steps_of_single_precision() {
    let mut t = Tile::toplevel(false);
    let mut o = 1.0f32;
    for up in [false, false, false, false, false, true, true, false, true, true, true, true, true] {
        o = (if up { o + 0.1 } else { o - 0.1 }).clamp(0.2, 1.0);
        t.on_wheel(if up { -1 } else { 1 });
        assert_eq!(t.opacity as f32 / OPAQUE as f32, o);
    }
}

#[test]
fn heights_are_those_of_single_precision() {
    for (sw, sh) in [(46u32, 85u32), (1920, 1080), (3, 7), (16_777_217, 9), (u32::MAX, 3)] {
        let mut t = Tile::toplevel(false);
        t.on_source_size(sw, sh);
        let a = sw as f32 / sh as f32;
        for w in [1u32, 120, 483, 1000, 4096, 16_777_219, u32::MAX] {
            let h = ((w as f32 / a).round() as u32).max(1);
            assert_eq!(t.snap(w, 5), (w.max(120), h), "{sw}:{sh} at {w}");
        }
    }
    // The exact ratio would give a point more.
    let mut t = Tile::toplevel(false);
    t.on_source_size(46, 85);
    assert_eq!(t.snap(483, 1), (483, 892));
}
