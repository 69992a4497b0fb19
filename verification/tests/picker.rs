//! What the picker offers, highlights and picks.

use wlr_capture::hints::{HintRow, Keymap};
use wlr_capture::layout::View;
use wlr_capture::sources::{admitted_windows, Candidate, Source, WindowFilters, WindowOrder};
use wlr_capture::switcher::CycleKeys;
use wlr_capture::ui::{App, FrameInput, Live, Mode, Options, Order};
use wlr_capture::wl::WindowIdentity;

/// A window source; an empty `app_id` makes it a system window.
fn window(key: &str, app_id: &str) -> Source {
    Source {
        key: key.into(),
        token: format!("Window: {key}"),
        title: app_id.into(),
        subtitle: String::new(),
        filter: app_id.into(),
        is_window: true,
        is_system: app_id.is_empty(),
        app_id: app_id.into(),
        win_title: String::new(),
        output: String::new(),
        dup_index: 0,
    }
}

/// One of several identical windows, told apart by its creation-order ordinal.
fn duplicate(key: &str, app_id: &str, dup_index: usize) -> Source {
    Source { dup_index, ..window(key, app_id) }
}

/// The compositor's view of `window(_, app_id)`, as the window holding the focus.
fn focus(app_id: &str) -> WindowIdentity {
    WindowIdentity { app_id: app_id.into(), title: String::new(), dup_index: 0 }
}

/// Options for a plain window list with every optional behaviour off; tests switch on what
/// they exercise.
fn options() -> Options {
    Options {
        mode: Mode::Windows,
        show_system: false,
        grid: None,
        view: View::Strip,
        hold: false,
        live: Live::All,
        order: Order::ByName,
        window_filters: WindowFilters::default(),
        hints: None,
        auto_select: false,
        cycle: CycleKeys::default(),
    }
}

/// A compositor keymap for `layout`, as the host hands one over: what the home row prints.
fn keymap(layout: &str) -> Keymap {
    let row = match layout {
        "us" => "asdfghjkl",
        "fr" => "qsdfghjkl",
        _ => panic!("not a layout under test"),
    };
    Keymap {
        keys: row.chars().enumerate().map(|(i, c)| (30 + i as u32, c.to_string())).collect(),
    }
}

/// The evdev code of the `n`-th key of the home row (`a`/`q`, `s`, `d`, …).
fn home_key(n: u32) -> u32 {
    30 + n
}

/// A `--app-id` / `--title` filter as the CLI builds it.
fn filters(app_ids: &[&str], titles: &[&str]) -> WindowFilters {
    WindowFilters::new(
        app_ids.iter().map(|s| (*s).to_string()).collect(),
        titles.iter().map(|s| (*s).to_string()).collect(),
        Vec::new(),
    )
}

/// Put the compositor's answer into a filter: the process of the window at each position of
/// the `offered` window list, `None` for a window it named none for.
fn with_processes(mut f: WindowFilters, processes: &[Option<u32>]) -> WindowFilters {
    for (i, pid) in processes.iter().enumerate() {
        f.processes.insert(identifier(i), *pid);
    }
    f
}

/// A `--pid` filter, with the compositor's answer already in it.
fn pid_filters(pids: &[u32], processes: &[Option<u32>]) -> WindowFilters {
    with_processes(
        WindowFilters::new(Vec::new(), Vec::new(), pids.to_vec()),
        processes,
    )
}

/// The identifier `offered` gives the window at position `i`.
fn identifier(i: usize) -> String {
    format!("ext-{i}")
}

/// The sources the capture thread hands the overlay for these `(app-id, title)` windows under
/// `f` — which are exactly the ones it opens a capture session for.
fn offered(windows: &[(&str, &str)], f: &WindowFilters) -> Vec<Source> {
    let ids: Vec<String> = (0..windows.len()).map(identifier).collect();
    let candidates: Vec<Candidate> = windows
        .iter()
        .zip(&ids)
        .map(|(&(app_id, title), identifier)| Candidate { app_id, title, identifier })
        .collect();
    admitted_windows(&candidates, f)
        .into_iter()
        .map(|(i, dup_index)| {
            let (app_id, title) = windows[i];
            Source {
                win_title: title.into(),
                filter: format!("{app_id} {title}").to_lowercase(),
                dup_index,
                ..window(&ids[i], app_id)
            }
        })
        .collect()
}

/// A frame with no key pressed.
fn idle(now: u64) -> FrameInput {
    FrameInput {
        escape: false,
        right: false,
        down: false,
        left: false,
        up: false,
        tab: false,
        shift: false,
        enter: false,
        now,
    }
}

/// An `App` fed by hand in place of the capture thread, driven one frame at a time.
struct Harness {
    app: App,
}

impl Harness {
    fn new(opts: Options) -> Self {
        Self::focused_on(opts, None)
    }

    /// With `focused` as the window that had the focus at launch.
    fn focused_on(opts: Options, focused: Option<WindowIdentity>) -> Self {
        Self { app: App::new(opts, focused) }
    }

    fn send(&mut self, sources: Vec<Source>) {
        self.app.set_sources(sources);
    }

    fn frame(&mut self) {
        self.app.run_ui(&idle(0));
    }

    fn picked(&self) -> Option<String> {
        self.app.out.as_ref().map(|s| s.token.clone())
    }
}

#[test]
fn mru_notices_a_ranking_that_names_no_window() {
    let listed = [window("ext-a", "foot"), window("ext-b", "firefox")];
    // Identifiers the compositor and the toplevel list agree on: ranked.
    let agreed = WindowOrder::mru(&["ext-b", "ext-a"]);
    assert!(!agreed.mru_unmatched(&listed));
    // One window opened since the snapshot still leaves the ranking usable.
    let partial = WindowOrder::mru(&["ext-a"]);
    assert!(!partial.mru_unmatched(&listed));
    // A compositor naming its windows otherwise: nothing to rank by.
    let diverged = WindowOrder::mru(&["0x7f2c", "0x7f31"]);
    assert!(diverged.mru_unmatched(&listed));
    // No history at all is the documented "not supported" case, not a mismatch, and by-name
    // order has nothing to match in the first place.
    assert!(!WindowOrder::mru(&[]).mru_unmatched(&listed));
    assert!(!WindowOrder::ByName.mru_unmatched(&listed));
}

#[test]
fn a_release_before_the_source_list_switches_once_it_arrives() {
    let hold = Options { hold: true, order: Order::Mru, ..options() };
    let mut h = Harness::focused_on(hold, Some(focus("foot")));
    h.app.arm();
    h.app.confirm_release();
    // Nothing to pick from yet: closing now would switch nowhere.
    assert!(!h.app.closing());

    h.send(vec![window("a", "foot"), window("b", "firefox")]);
    h.frame();
    assert!(h.app.closing());
    assert_eq!(h.picked().as_deref(), Some("Window: b"));
}

#[test]
fn a_release_right_after_arming_switches_to_the_next_window() {
    // The source list is already in when the modifier is seen held, and the modifier is
    // released before another frame is drawn.
    let hold = Options { hold: true, order: Order::Mru, ..options() };
    let mut h = Harness::focused_on(hold, Some(focus("foot")));
    h.send(vec![window("a", "foot"), window("b", "firefox")]);
    h.frame();
    h.app.arm();
    h.app.confirm_release();
    assert!(h.app.closing());
    assert_eq!(h.picked().as_deref(), Some("Window: b"));
}

#[test]
fn an_empty_source_list_uses_up_the_initial_advance() {
    // Arming with nothing on offer advances past nothing; windows turning up later don't catch
    // up on it.
    let hold = Options { hold: true, order: Order::Mru, ..options() };
    let mut h = Harness::focused_on(hold, Some(focus("foot")));
    h.app.arm();
    h.send(vec![]);
    h.frame();
    h.send(vec![window("a", "foot"), window("b", "firefox")]);
    h.frame();
    h.app.confirm_release();
    assert!(h.app.closing());
    assert_eq!(h.picked().as_deref(), Some("Window: a"));
}

#[test]
fn an_unknown_current_window_starts_on_the_first_tile() {
    // Nothing had the focus; the focused window is hidden from the tiles (a system window); or
    // its identity matches no tile at all (the XWayland app-id blind spot). Either way the
    // first tile is not the window the user is on, so it is the one to switch to.
    for (focused, name) in [(None, "none"), (Some(focus("")), "system"), (Some(focus("steam")), "steam")] {
        let hold = Options { hold: true, ..options() };
        let mut h = Harness::focused_on(hold, focused);
        h.send(vec![window("s", ""), window("a", "foot"), window("b", "firefox")]);
        h.frame();
        h.app.arm();
        h.app.confirm_release();
        assert_eq!(h.picked().as_deref(), Some("Window: a"), "focused: {name}");
    }
}

#[test]
fn the_current_window_is_stepped_over_whatever_the_order() {
    // It leads the list here — as MRU always puts it, and as by-name may: a switcher that
    // offered the window you are already on would switch nowhere.
    for (order, name) in [(Order::ByName, "by-name"), (Order::Mru, "mru")] {
        let hold = Options { hold: true, order, ..options() };
        let mut h = Harness::focused_on(hold, Some(focus("foot")));
        h.send(vec![window("a", "foot"), window("b", "firefox")]);
        h.frame();
        h.app.arm();
        h.app.confirm_release();
        assert_eq!(h.picked().as_deref(), Some("Window: b"), "order: {name}");
    }
}

#[test]
fn a_current_window_further_down_leaves_the_first_tile_selected() {
    // By name, the window the user is on is second: the first tile is already somewhere else
    // to go, and stepping over would skip it for nothing.
    let hold = Options { hold: true, ..options() };
    let mut h = Harness::focused_on(hold, Some(focus("firefox")));
    h.send(vec![window("a", "foot"), window("b", "firefox")]);
    h.frame();
    h.app.arm();
    h.app.confirm_release();
    assert_eq!(h.picked().as_deref(), Some("Window: a"));
}

#[test]
fn the_only_window_is_selected_even_when_it_is_the_current_one() {
    // There is nowhere else to go: switching to itself beats switching to nothing.
    let hold = Options { hold: true, ..options() };
    let mut h = Harness::focused_on(hold, Some(focus("foot")));
    h.send(vec![window("a", "foot")]);
    h.frame();
    h.app.arm();
    h.app.confirm_release();
    assert_eq!(h.picked().as_deref(), Some("Window: a"));
}

#[test]
fn identical_windows_are_told_apart_by_their_creation_order() {
    // Two windows of the same app with the same title: only the ordinal says which one the
    // user is on, and the other one is where the switch goes.
    let hold = Options { hold: true, ..options() };
    let second = WindowIdentity { dup_index: 1, ..focus("foot") };
    let mut h = Harness::focused_on(hold, Some(second));
    h.send(vec![duplicate("a", "foot", 0), duplicate("b", "foot", 1)]);
    h.frame();
    h.app.arm();
    h.app.confirm_release();
    assert_eq!(h.picked().as_deref(), Some("Window: a"));
}

#[test]
fn hold_to_switch_shows_nothing_until_revealed() {
    // Sources in and a frame painted, and still not a pixel: until a held modifier settles it,
    // a quick tap may yet be on its way past.
    let mut h = Harness::new(Options { hold: true, ..options() });
    h.send(vec![window("a", "foot"), window("b", "firefox")]);
    h.frame();
    assert!(
        !h.app.dims(),
        "the dim would give the overlay away as surely as the tiles"
    );
}

#[test]
fn revealing_brings_back_the_dimmed_backdrop() {
    let mut h = Harness::new(Options { hold: true, ..options() });
    h.app.unveil();
    assert!(h.app.dims());
}

#[test]
fn without_hold_to_switch_the_picker_is_drawn_straight_away() {
    // No tap to mistake the first frames for, so nothing is held back.
    let h = Harness::new(options());
    assert!(h.app.dims());
}

#[test]
fn a_window_filter_keeps_what_it_names_and_nothing_else() {
    let open = [("foot", "vim"), ("firefox", "news"), ("foot", "logs")];
    // Several windows left: both terminals, not the browser.
    let terminals = offered(&open, &filters(&["foot"], &[]));
    assert_eq!(terminals.len(), 2);
    assert!(terminals.iter().all(|s| s.app_id == "foot"));
    // Repeating a flag widens the set; the two kinds of criteria narrow each other.
    assert_eq!(offered(&open, &filters(&["foot", "firefox"], &[])).len(), 3);
    let one = offered(&open, &filters(&["foot"], &["log"]));
    assert_eq!(one.len(), 1);
    assert_eq!(one[0].win_title, "logs");
    // Compared the way wlr-shot compares them: the app id exactly, the title as a substring,
    // neither minding case.
    assert_eq!(offered(&open, &filters(&["FOOT"], &["LOG"])).len(), 1);
    assert!(offered(&open, &filters(&["foo"], &[])).is_empty());
    // Nothing left: no source at all, so no session, no capture, no thumbnail.
    assert!(offered(&open, &filters(&["chromium"], &[])).is_empty());
    // Which is the emptiness the front-ends refuse before raising the overlay.
    let none = filters(&["chromium"], &[]);
    assert!(!open.iter().enumerate().any(|(i, &(app_id, title))| {
        none.admits(Candidate { app_id, title, identifier: &identifier(i) })
    }));
    // No filter at all offers every window.
    assert_eq!(offered(&open, &WindowFilters::default()).len(), 3);
}

#[test]
fn a_pid_filter_keeps_every_window_of_the_process() {
    // Two windows of one terminal, a browser, and a second terminal.
    let open = [
        ("foot", "vim"),
        ("firefox", "news"),
        ("foot", "logs"),
        ("foot", "other"),
    ];
    let processes = [Some(4242), Some(777), Some(4242), Some(99)];

    // A process with several windows offers all of them, not the first one.
    let terminal = offered(&open, &pid_filters(&[4242], &processes));
    assert_eq!(terminal.len(), 2);
    assert_eq!(
        terminal
            .iter()
            .map(|s| s.win_title.as_str())
            .collect::<Vec<_>>(),
        ["vim", "logs"]
    );
    // Repeating the flag widens the set, like --app-id and --title.
    assert_eq!(
        offered(&open, &pid_filters(&[4242, 777], &processes)).len(),
        3
    );
    // A pid nothing runs under keeps nothing: no source, no session, no capture.
    assert!(offered(&open, &pid_filters(&[1], &processes)).is_empty());

    // The kinds of criteria narrow each other, as --app-id and --title do.
    let both = with_processes(
        WindowFilters::new(vec!["foot".into()], vec!["log".into()], vec![4242]),
        &processes,
    );
    let one = offered(&open, &both);
    assert_eq!(one.len(), 1);
    assert_eq!(one[0].win_title, "logs");
}

#[test]
fn a_window_whose_process_is_unknown_is_not_offered() {
    let open = [("foot", "vim"), ("foot", "logs")];
    // The compositor named a process for the first window and none for the second.
    let known = pid_filters(&[4242], &[Some(4242), None]);
    let kept = offered(&open, &known);
    assert_eq!(kept.len(), 1);
    assert_eq!(kept[0].win_title, "vim");
    // Without a --pid flag the same unnamed window is offered as before: the pid is only ever
    // a condition when it was asked for.
    assert_eq!(offered(&open, &WindowFilters::default()).len(), 2);
}

#[test]
fn the_overlay_shows_only_the_windows_the_pid_filter_kept() {
    let open = [("foot", "vim"), ("firefox", "news"), ("foot", "logs")];
    let mut h = Harness::new(options());
    h.send(offered(
        &open,
        &pid_filters(&[4242], &[Some(4242), Some(777), Some(4242)]),
    ));
    h.frame();
    assert_eq!(h.app.visible().len(), 2);
    assert!(h.app.visible().iter().all(|s| s.app_id == "foot"));
}

#[test]
fn the_message_for_an_empty_filter_quotes_every_flag() {
    let f = WindowFilters::new(vec!["foot".into()], vec!["log".into()], vec![4242, 777]);
    assert_eq!(
        f.describe(),
        "--app-id foot --title log --pid 4242 --pid 777"
    );
    // Only a --pid run has to ask the compositor for anything.
    assert!(f.needs_pids());
    assert!(!filters(&["foot"], &[]).needs_pids());
    assert!(!WindowFilters::default().needs_pids());
    // And an empty filter is empty whichever flag is missing.
    assert!(WindowFilters::default().is_empty());
    assert!(!WindowFilters::new(Vec::new(), Vec::new(), vec![1]).is_empty());
}

#[test]
fn a_filtered_list_numbers_identical_windows_as_the_compositor_does() {
    // The ordinal is how a window is named for activation, so it is counted over every
    // toplevel, including the ones the filter drops.
    let open = [("foot", "vim"), ("firefox", "news"), ("foot", "vim")];
    let kept = offered(&open, &filters(&["foot"], &[]));
    assert_eq!(kept.iter().map(|s| s.dup_index).collect::<Vec<_>>(), [0, 1]);
}

#[test]
fn the_overlay_shows_only_the_windows_the_filter_kept() {
    let open = [("foot", "vim"), ("firefox", "news"), ("foot", "logs")];
    let mut h = Harness::new(options());
    h.send(offered(&open, &filters(&["foot"], &[])));
    h.frame();
    assert_eq!(h.app.visible().len(), 2);
    assert!(h.app.visible().iter().all(|s| s.app_id == "foot"));

    // Down to one window, and it is the one the overlay opens on.
    let mut h = Harness::new(options());
    h.send(offered(&open, &filters(&["foot"], &["log"])));
    h.frame();
    assert_eq!(h.app.visible().len(), 1);
    assert_eq!(h.app.visible()[0].win_title, "logs");

    // Down to none: the overlay has nothing to draw.
    let mut h = Harness::new(options());
    h.send(offered(&open, &filters(&["chromium"], &[])));
    h.frame();
    assert!(h.app.visible().is_empty());
}

#[test]
fn the_filter_and_include_system_decide_separately() {
    // A system surface carries no app-id, so --app-id never keeps one.
    let open = [("foot", "vim"), ("", "wlr-draw overlay")];
    assert!(offered(&open, &filters(&["foot"], &[]))
        .iter()
        .all(|s| !s.is_system));
    // A title can keep one — and --include-system still decides whether it shows.
    let kept = offered(&open, &filters(&[], &["overlay"]));
    assert_eq!(kept.len(), 1);
    assert!(kept[0].is_system);
    let mut h = Harness::new(options());
    h.send(kept.clone());
    h.frame();
    assert!(h.app.visible().is_empty());
    let mut h = Harness::new(Options { show_system: true, ..options() });
    h.send(kept);
    h.frame();
    assert_eq!(h.app.visible().len(), 1);
}

#[test]
fn the_overlay_filter_field_narrows_what_the_flags_kept() {
    let open = [("foot", "vim"), ("foot", "logs"), ("firefox", "news")];
    let mut h = Harness::new(options());
    h.send(offered(&open, &filters(&["foot"], &[])));
    h.frame();
    h.app.filter = "log".into();
    assert_eq!(h.app.visible().len(), 1);
    // It narrows; it cannot bring back a window the flags never captured.
    h.app.filter = "firefox".into();
    assert!(h.app.visible().is_empty());
}

#[test]
fn the_tiles_are_labelled_with_the_keys_of_the_active_layout() {
    // The overlay is the same; only the keyboard under it differs. A tile carries the
    // character its own layout prints on the key that picks it.
    for (layout, expected) in [("us", ["a", "s", "d"]), ("fr", ["q", "s", "d"])] {
        let mut h = Harness::new(Options { hints: Some(HintRow::Home), ..options() });
        h.app.set_keymap(&keymap(layout));
        h.send(vec![window("a", "foot"), window("b", "firefox"), window("c", "mpv")]);
        h.frame();
        let labels: Vec<&str> = (0..3).filter_map(|i| h.app.hint_label(i)).collect();
        assert_eq!(labels, expected, "layout: {layout}");
    }
}

#[test]
fn a_hint_key_picks_the_tile_it_labels() {
    // On AZERTY the third home key prints `d`, as it does on QWERTY — but the first prints
    // `q`. Either way it is the position that fires, so the tile the user read is the tile
    // they get.
    let mut h = Harness::new(Options { hints: Some(HintRow::Home), ..options() });
    h.app.set_keymap(&keymap("fr"));
    h.send(vec![window("a", "foot"), window("b", "firefox"), window("c", "mpv")]);
    h.frame();
    assert_eq!(h.app.hint_label(0), Some("q"));
    assert!(h.app.press_hint(home_key(0)));
    assert!(h.app.closing());
    assert_eq!(h.picked().as_deref(), Some("Window: a"));
}

#[test]
fn hints_run_out_before_the_windows_do() {
    // Nine keys in the home row and twelve windows on screen: the last three carry no hint,
    // and their keys are none of ours to swallow. Tab, the arrows and the mouse still reach
    // them.
    let mut h = Harness::new(Options { hints: Some(HintRow::Home), ..options() });
    h.app.set_keymap(&keymap("fr"));
    let many: Vec<Source> = (0..12)
        .map(|i| window(&format!("w{i}"), &format!("app{i}")))
        .collect();
    h.send(many);
    h.frame();
    assert_eq!(h.app.hints.len(), 9);
    assert!(h.app.hint_label(8).is_some());
    assert!(h.app.hint_label(9).is_none());
    // A key no tile carries is left alone, and picks nothing.
    assert!(!h.app.press_hint(home_key(9)));
    assert!(!h.app.closing());
    assert!(h.picked().is_none());
    // Fewer windows than keys leaves the extra keys inert just the same.
    let mut h = Harness::new(Options { hints: Some(HintRow::Home), ..options() });
    h.app.set_keymap(&keymap("us"));
    h.send(vec![window("a", "foot")]);
    h.frame();
    assert!(!h.app.press_hint(home_key(1)));
    assert!(h.picked().is_none());
}

#[test]
fn the_card_leaves_its_letters_to_the_filter_field() {
    // The picker's card is typed into. A hint there would either eat the keystroke or never
    // fire, so there is none: no label, and the key goes through untouched.
    let mut h = Harness::new(Options {
        view: View::Card,
        hints: Some(HintRow::Home),
        ..options()
    });
    h.app.set_keymap(&keymap("fr"));
    h.send(vec![window("a", "foot"), window("b", "firefox")]);
    h.frame();
    assert!(h.app.hint_label(0).is_none());
    assert!(!h.app.press_hint(home_key(0)));
    assert!(h.picked().is_none());
    // And the field itself still narrows the list, key by key.
    h.app.filter = "fire".into();
    assert_eq!(h.app.visible().len(), 1);
}

#[test]
fn without_the_flag_no_tile_carries_a_hint() {
    // Off unless asked for: the keymap arrives all the same, and nothing comes of it — no
    // label, and every key left to the rest of the UI.
    let mut h = Harness::new(options());
    h.app.set_keymap(&keymap("us"));
    h.send(vec![window("a", "foot"), window("b", "firefox")]);
    h.frame();
    assert!(h.app.hints.is_empty());
    assert!(h.app.hint_label(0).is_none());
    assert!(!h.app.press_hint(home_key(0)));
    assert!(h.picked().is_none());
}

#[test]
fn a_hint_picked_under_a_held_modifier_still_picks() {
    // Alt-Tab holds Alt the whole time. The hint is matched on the physical key and never on
    // the modifier state, so it fires under the held modifier as it would without one — which
    // is the only way it is any use in a switcher.
    let mut h = Harness::focused_on(
        Options { hold: true, hints: Some(HintRow::Home), ..options() },
        Some(focus("foot")),
    );
    h.app.set_keymap(&keymap("fr"));
    h.send(vec![window("a", "foot"), window("b", "firefox"), window("c", "mpv")]);
    h.frame();
    h.app.arm(); // the modifier is down: the overlay is armed
    assert!(h.app.press_hint(home_key(2)));
    assert_eq!(h.picked().as_deref(), Some("Window: c"));
}

#[test]
fn keys_move_the_highlight_and_confirm_it() {
    let mut h = Harness::new(Options { mode: Mode::All, ..options() });
    h.send(vec![window("a", "foot"), window("b", "firefox"), window("c", "mpv")]);
    assert!(h.app.run_ui(&FrameInput { left: true, ..idle(0) }));
    assert_eq!(h.app.selected, 2);
    h.app.run_ui(&FrameInput { tab: true, ..idle(0) });
    assert_eq!(h.app.selected, 0);
    h.app.run_ui(&FrameInput { tab: true, shift: true, ..idle(0) });
    h.app.run_ui(&FrameInput { enter: true, ..idle(0) });
    assert_eq!(h.picked().as_deref(), Some("Window: c"));
    // In the card Tab is the filter field's.
    let mut h = Harness::new(Options { view: View::Card, ..options() });
    h.send(vec![window("a", "foot"), window("b", "firefox")]);
    h.app.run_ui(&FrameInput { tab: true, ..idle(0) });
    assert_eq!(h.app.selected, 0);
    h.app.run_ui(&FrameInput { escape: true, ..idle(0) });
    assert!(h.app.closing());
    assert!(h.picked().is_none());
}

#[test]
fn tiles_held_back_are_shown_after_the_backstop() {
    let mut h = Harness::new(Options { hold: true, ..options() });
    h.send(vec![window("a", "foot")]);
    assert!(!h.app.run_ui(&idle(1_000)));
    assert!(!h.app.run_ui(&idle(150_999)));
    assert!(h.app.run_ui(&idle(151_000)));
}

#[test]
fn cycling_wraps_both_ways() {
    let mut h = Harness::new(options());
    h.app.cycle(true);
    assert_eq!(h.app.selected, 0);
    h.send(vec![window("a", "foot"), window("b", "firefox")]);
    h.app.cycle(false);
    assert_eq!(h.app.selected, 1);
    h.app.cycle(true);
    assert_eq!(h.app.selected, 0);
}

#[test]
fn windows_are_ordered_by_rank_then_by_name() {
    let list = [window("x", "Zed"), window("y", "alpha"), window("z", "mpv")];
    assert_eq!(WindowOrder::ByName.sorted(&list), vec![1, 2, 0]);
    assert_eq!(WindowOrder::mru(&["z", "x"]).sorted(&list), vec![2, 0, 1]);
    assert_eq!(
        WindowOrder::ByName.compare(&list[0], &list[1]),
        std::cmp::Ordering::Greater
    );
    assert_eq!(
        WindowOrder::ByName.compare(&list[0], &list[0]),
        std::cmp::Ordering::Equal
    );
}
