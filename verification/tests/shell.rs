//! The keyboard around the overlay.

use wlr_capture::hints::Keymap;
use wlr_capture::keys::{
    KeyPress, KEY_ALT_L, KEY_C, KEY_ESCAPE, KEY_ISO_LEFT_TAB, KEY_RETURN, KEY_SUPER_L, KEY_TAB,
};
use wlr_capture::layout::View;
use wlr_capture::shell::{
    is_alt, is_logo, map_button, map_key, Button, Delivered, Host, Mods, UiKey,
};
use wlr_capture::sources::{Source, WindowFilters};
use wlr_capture::switcher::CycleKeys;
use wlr_capture::ui::{App, Live, Mode, Options, Order};
use wlr_capture::wl::WindowIdentity;

fn window(key: &str, app_id: &str) -> Source {
    Source {
        key: key.into(),
        token: format!("Window: {key}"),
        title: app_id.into(),
        subtitle: String::new(),
        filter: app_id.into(),
        is_window: true,
        is_system: false,
        app_id: app_id.into(),
        win_title: String::new(),
        output: String::new(),
        dup_index: 0,
    }
}

/// An overlay over two windows, the first of which has the focus.
fn overlay(hold: bool) -> App {
    let opts = Options {
        mode: Mode::Windows,
        show_system: false,
        grid: None,
        view: View::Strip,
        hold,
        live: Live::All,
        order: Order::Mru,
        window_filters: WindowFilters::default(),
        hints: Some(wlr_capture::hints::HintRow::Home),
        auto_select: false,
        cycle: CycleKeys::default(),
    };
    let focused = WindowIdentity { app_id: "foot".into(), title: String::new(), dup_index: 0 };
    let mut app = App::new(opts, Some(focused));
    app.set_sources(vec![window("a", "foot"), window("b", "firefox")]);
    app
}

fn none() -> Mods {
    Mods { alt: false, ctrl: false, shift: false }
}

fn picked(h: &mut Host) -> Option<String> {
    h.end().and_then(|a| a.out).map(|s| s.token)
}

#[test]
fn holding_shows_the_tiles_and_releasing_switches() {
    let mut h = Host::new();
    assert!(h.closing());
    h.begin(overlay(true));
    h.enter(&[KEY_ALT_L]);
    assert!(h.app.as_ref().unwrap().dims());
    h.update_modifiers(Mods { alt: true, ..none() }, false);
    assert!(!h.closing());
    // Tab cycles while the modifier is held, and does not reach the UI.
    let d = h.key(KEY_TAB, 15, None, true);
    assert!(d.key.is_none());
    assert!(!h.closing());
    h.update_modifiers(none(), false);
    assert!(h.closing());
    assert_eq!(picked(&mut h).as_deref(), Some("Window: b"));
}

#[test]
fn a_tap_released_before_the_keyboard_came_in_switches() {
    let mut h = Host::new();
    h.begin(overlay(true));
    h.enter(&[]);
    assert!(!h.closing());
    h.update_modifiers(none(), false);
    assert!(h.closing());
    assert_eq!(picked(&mut h).as_deref(), Some("Window: b"));
}

#[test]
fn the_raw_keys_are_a_second_signal() {
    let mut h = Host::new();
    h.begin(overlay(true));
    h.key(KEY_SUPER_L, 125, None, true);
    assert!(h.armed && h.armed_logo && !h.armed_alt);
    h.key(KEY_ISO_LEFT_TAB, 15, None, true);
    h.key(KEY_SUPER_L, 125, None, false);
    assert!(h.closing());
    assert_eq!(picked(&mut h).as_deref(), Some("Window: b"));
}

#[test]
fn without_hold_the_modifiers_do_nothing() {
    let mut h = Host::new();
    h.begin(overlay(false));
    h.enter(&[KEY_ALT_L]);
    assert!(h.update_modifiers(Mods { alt: true, ..none() }, false));
    assert!(h.update_modifiers(none(), false));
    assert!(!h.update_modifiers(none(), false));
    assert!(!h.closing());
    let d = h.key(KEY_TAB, 15, None, true);
    assert_eq!(d.key, Some(UiKey::Tab));
}

#[test]
fn a_hint_stops_at_the_host_and_text_goes_through() {
    let mut h = Host::new();
    h.update_keymap(Keymap { keys: vec![(30, "q".into()), (31, "s".into())] });
    h.begin(overlay(false));
    let d = h.key(KEY_C, 46, Some("c"), true);
    assert_eq!(d.text.as_deref(), Some("c"));
    assert!(d.key.is_none());
    assert!(h.key(KEY_C, 46, Some("c"), false).text.is_none());
    assert!(h.key(KEY_ESCAPE, 1, Some("\u{1b}"), true).text.is_none());
    h.update_modifiers(Mods { ctrl: true, ..none() }, false);
    assert!(h.key(KEY_C, 46, Some("c"), true).text.is_none());
    let d = h.key(0x73, 31, Some("s"), true);
    assert!(d.key.is_none() && d.text.is_none());
    assert_eq!(picked(&mut h).as_deref(), Some("Window: b"));
}

#[test]
fn the_surface_is_drawn_once_it_has_a_size() {
    let mut h = Host::new();
    assert_eq!(h.configure(0, 0), None);
    assert_eq!(h.scale_factor_changed(2), None);
    assert_eq!(h.configure(100, 50), Some((200, 100)));
    assert_eq!(h.configure(0, 0), Some((200, 100)));
    assert_eq!(h.scale_factor_changed(-1), Some((100, 50)));
    h.begin(overlay(false));
    h.closed();
    assert!(h.closing());
    assert_eq!(picked(&mut h), None);
}

#[test]
fn keys_and_buttons_are_told_apart() {
    assert!(is_alt(KEY_ALT_L) && !is_alt(KEY_SUPER_L));
    assert!(is_logo(KEY_SUPER_L) && !is_logo(KEY_ALT_L));
    assert_eq!(map_key(KEY_RETURN), Some(UiKey::Enter));
    assert_eq!(map_key(KEY_C), None);
    assert_eq!(map_button(0x111), Some(Button::Secondary));
    assert_eq!(map_button(0x113), None);
}

#[test]
fn a_reused_host_opens_afresh() {
    let mut h = Host::new();
    h.begin(overlay(true));
    h.enter(&[KEY_ALT_L]);
    h.update_modifiers(Mods { alt: true, ctrl: true, shift: true }, true);
    h.end();
    h.begin(overlay(true));
    assert!(!h.armed && !h.alt_down && !h.logo_down && !h.prev_held);
    assert!(h.mods == none() && !h.awaiting_enter_modifiers && h.hold);
}

#[test]
fn other_keys_cycle_when_they_are_asked_for() {
    // `j` for the next and Shift+Minus for the previous.
    let mut app = overlay(true);
    app.cycle = CycleKeys::parse("j:Shift+Minus").unwrap();
    let mut h = Host::new();
    h.update_keymap(Keymap { keys: vec![(12, "-".into()), (36, "j".into())] });
    h.begin(app);
    h.key(KEY_SUPER_L, 125, None, true);
    let on = |h: &Host| h.app.as_ref().unwrap().selected;
    assert_eq!(on(&h), 0);
    let taken = |d: Delivered| d.key.is_none() && d.text.is_none();
    assert!(taken(h.key(0x6a, 36, Some("j"), true)));
    assert_eq!(on(&h), 1);
    // A key that is not held with Shift as asked for is another press.
    assert!(!taken(h.key(0x2d, 12, Some("-"), true)));
    assert_eq!(on(&h), 1);
    h.update_modifiers(Mods { shift: true, ..none() }, true);
    assert!(taken(h.key(0x5f, 12, Some("_"), true)));
    assert_eq!(on(&h), 0);
    // Tab is a key like any other then.
    assert!(!taken(h.key(KEY_TAB, 15, None, true)));
    assert_eq!(on(&h), 0);
}

#[test]
fn keys_are_named_by_what_they_are() {
    let name = |keysym, plain, shift| KeyPress::of(keysym, plain, shift).map(|k| k.to_string());
    assert_eq!(name(KEY_TAB, "", false).as_deref(), Some("Tab"));
    assert_eq!(name(KEY_ISO_LEFT_TAB, "", false).as_deref(), Some("Shift+Tab"));
    assert_eq!(name(0xff54, "", false).as_deref(), Some("Down"));
    assert_eq!(name(0xffbe, "", true).as_deref(), Some("Shift+F1"));
    assert_eq!(name(0xffe0, "", false).as_deref(), Some("F35"));
    assert_eq!(name(0x5f, "-", true).as_deref(), Some("Shift+Minus"));
    assert_eq!(name(0x4a, "j", false).as_deref(), Some("J"));
    assert_eq!(name(0xffe9, "", false), None);
    // Each name that a keysym has is one that can be written.
    for keysym in [0xff08, 0xff0d, 0xff1b, 0x20, 0xff50, 0xff51, 0xff55, 0xff56, 0xff57, 0xff63] {
        let written = name(keysym, "", false).unwrap();
        assert_eq!(KeyPress::parse(&written).unwrap().to_string(), written);
    }
}

#[test]
fn the_only_window_on_offer_is_switched_to_at_once() {
    let fresh = |auto_select| {
        let mut app = overlay(true);
        app.sources = None;
        app.auto_select = auto_select;
        app
    };
    let mut app = fresh(true);
    app.set_sources(vec![window("a", "foot")]);
    assert!(app.closing());
    assert_eq!(app.out.unwrap().token, "Window: a");
    let mut app = fresh(false);
    app.set_sources(vec![window("a", "foot")]);
    assert!(!app.closing());
    // Two are a choice, and it stays one when the other closes.
    let mut app = fresh(true);
    app.set_sources(vec![window("a", "foot"), window("b", "firefox")]);
    assert!(!app.closing());
    app.set_sources(vec![window("a", "foot")]);
    assert!(!app.closing());
}
