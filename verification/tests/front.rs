//! What is settled before an overlay comes up.

use wlr_capture::chooser;
use wlr_capture::error::CaptureError;
use wlr_capture::front::{
    daemon_can_serve, reject_empty_window_filter, reject_hints_on_card, require_window_pids,
    Refusal,
};
use wlr_capture::hints::HintRow;
use wlr_capture::layout::View;
use wlr_capture::sources::{Filter, Selection, WindowFilters};
use wlr_capture::switcher::{
    self, after_focus, after_overlay, daemon_may_run, hold, scratchpad_settled, serve,
    turns_hold_off, Act, Aside, CycleKeys, Ran, Scratchpad,
};
use wlr_capture::ui::{Live, Mode, Order};
use wlr_capture::wl::Toplevel;

fn window(identifier: &str, app_id: &str) -> Toplevel {
    Toplevel { handle: 1, identifier: identifier.into(), app_id: app_id.into(), title: String::new() }
}

fn pids(n: u32) -> WindowFilters {
    WindowFilters::new(vec![], vec![], vec![n])
}

#[test]
fn hints_are_refused_where_letters_are_typed() {
    assert!(matches!(
        reject_hints_on_card(Some(HintRow::Home), View::Card),
        Err(Refusal::HintsNeedKeyboard)
    ));
    assert!(reject_hints_on_card(Some(HintRow::Home), View::Grid).is_ok());
    assert!(reject_hints_on_card(None, View::Card).is_ok());
}

#[test]
fn a_process_filter_is_never_left_unapplied() {
    let open = [window("a", "foot"), window("b", "mpv")];
    let mut f = pids(7);
    assert!(f.must_ask(&open));
    assert!(matches!(require_window_pids(&mut f, &open, None), Err(Refusal::PidUnsupported)));
    let answer = vec![("a".to_string(), 7)];
    assert!(require_window_pids(&mut f, &open, Some(&answer)).is_ok());
    // Both windows were asked about, the one without a process too.
    assert!(!f.must_ask(&open));
    assert_eq!(f.processes.get("a"), Some(&Some(7)));
    assert_eq!(f.processes.get("b"), Some(&None));
    assert!(require_window_pids(&mut f, &open, None).is_ok());
    assert!(require_window_pids(&mut WindowFilters::default(), &open, None).is_ok());
}

#[test]
fn an_empty_overlay_is_refused() {
    let open = [window("a", "foot")];
    let none = WindowFilters::new(vec!["mpv".into()], vec![], vec![]);
    match reject_empty_window_filter(&open, &none) {
        Err(Refusal::NoMatch(text)) => assert_eq!(text, "--app-id mpv"),
        _ => panic!("not refused"),
    }
    assert!(reject_empty_window_filter(&open, &WindowFilters::default()).is_ok());
    assert!(reject_empty_window_filter(&[], &WindowFilters::default()).is_ok());
}

fn chooser_args() -> chooser::Args {
    chooser::Args {
        windows: false,
        outputs: false,
        include_system: false,
        filters: WindowFilters::default(),
        layout: View::Card,
        hints: None,
        grid: None,
        order: Order::ByName,
    }
}

#[test]
fn the_choosers_flags_are_settled() {
    assert_eq!(chooser::options(chooser_args()).ok().unwrap().mode, Mode::All);
    let both = chooser::Args { windows: true, outputs: true, ..chooser_args() };
    assert_eq!(chooser::options(both).ok().unwrap().mode, Mode::Windows);
    let screens = chooser::Args { outputs: true, ..chooser_args() };
    assert_eq!(chooser::options(screens).ok().unwrap().mode, Mode::Outputs);
    let grid = chooser::Args { grid: Some((2, 2)), layout: View::Strip, ..chooser_args() };
    assert!(matches!(chooser::options(grid), Err(Refusal::GridNeedsCard)));
    let hints = chooser::Args { hints: Some(HintRow::Top), grid: Some((2, 2)), ..chooser_args() };
    assert!(matches!(chooser::options(hints), Err(Refusal::HintsNeedKeyboard)));
}

#[test]
fn screens_ignore_the_window_filter() {
    let open = [window("a", "foot")];
    let mut f = WindowFilters::new(vec!["mpv".into()], vec![], vec![]);
    assert!(!chooser::must_settle(&f, Mode::All));
    assert!(chooser::must_settle(&f, Mode::Windows));
    assert!(chooser::preflight(&mut f, Mode::All, &open, None).is_ok());
    assert!(matches!(
        chooser::preflight(&mut f, Mode::Windows, &open, None),
        Err(Refusal::NoMatch(_))
    ));
    let mut p = pids(3);
    assert!(matches!(
        chooser::preflight(&mut p, Mode::All, &open, None),
        Err(Refusal::PidUnsupported)
    ));
}

#[test]
fn the_switcher_needs_windows() {
    let open = [window("a", "foot")];
    let mut f = WindowFilters::default();
    assert!(matches!(
        switcher::preflight(&mut f, false, &open, None),
        Err(Refusal::NoWindowCapture)
    ));
    assert!(switcher::preflight(&mut f, true, &open, None).is_ok());
    let o = switcher::options(switcher::Args {
        layout: View::Strip,
        live: Live::Off,
        order: Order::Mru,
        hold: false,
        no_hold: false,
        hints: None,
        include_system: true,
        filters: WindowFilters::default(),
        cycle: CycleKeys::parse("J:K").unwrap(),
    })
    .ok()
    .unwrap();
    assert!(o.hold && o.show_system && o.mode == Mode::Windows);
    assert!(o.auto_select && o.cycle.to_string() == "J:K");
}

#[test]
fn holding_is_the_strips_default() {
    assert!(hold(false, false, View::Strip));
    assert!(!hold(false, false, View::Grid));
    assert!(hold(true, false, View::Grid));
    assert!(!hold(false, true, View::Strip));
    assert!(turns_hold_off(false, false, true));
    assert!(!turns_hold_off(true, false, true));
    assert!(!turns_hold_off(false, false, false));
}

#[test]
fn windows_kept_aside_are_offered_put_back_or_left_out() {
    let aside = || Some(vec!["a".to_string()]);
    assert!(matches!(
        scratchpad_settled(Scratchpad::Only, None, None),
        Err(Refusal::ScratchpadUnsupported)
    ));
    match scratchpad_settled(Scratchpad::Toggle, aside(), Some("a")) {
        Ok(Aside::PutBack(w)) => assert_eq!(w, "a"),
        _ => panic!("not put back"),
    }
    assert!(matches!(
        scratchpad_settled(Scratchpad::Toggle, aside(), Some("b")),
        Ok(Aside::Narrow(Filter::Only(_)))
    ));
    assert!(matches!(
        scratchpad_settled(Scratchpad::Exclude, aside(), Some("a")),
        Ok(Aside::Narrow(Filter::Except(_)))
    ));
    let mut f = WindowFilters::default();
    f.set_identifiers(Filter::except(vec!["a".to_string()]));
    assert!(!f.is_empty());
    assert!(matches!(
        reject_empty_window_filter(&[window("a", "foot")], &f),
        Err(Refusal::NoMatch(_))
    ));
    assert!(reject_empty_window_filter(&[window("b", "foot")], &f).is_ok());
    assert!(Filter::only(vec!["a".to_string()]).admits("a"));
}

#[test]
fn a_run_ends_in_what_came_of_it() {
    let mut sel = Selection {
        token: "Window: a".into(),
        is_window: true,
        identifier: "a".into(),
        app_id: "foot".into(),
        title: "vim".into(),
        output: String::new(),
        dup_index: 2,
    };
    assert_eq!(after_overlay(Some(&sel)), Act::Focus);
    let who = sel.identity();
    assert_eq!((who.app_id.as_str(), who.title.as_str(), who.dup_index), ("foot", "vim", 2));
    sel.is_window = false;
    assert_eq!(after_overlay(Some(&sel)), Act::Over(Ran::Switched));
    assert_eq!(after_overlay(None), Act::Over(Ran::Cancelled));
    assert!(matches!(after_focus(Ok(())), Ok(Ran::Switched)));
    assert!(matches!(
        after_focus(Err(CaptureError::ActivationUnsupported)),
        Err(Refusal::FocusUnsupported)
    ));
    match after_focus(Err(CaptureError::msg("boom"))) {
        Err(Refusal::Failed(t)) => assert_eq!(t, "boom"),
        _ => panic!("not failed"),
    }
    assert_eq!(serve(false, Ok(Ran::Switched)).exit_code(), 0);
    assert_eq!(serve(true, Ok(Ran::Cancelled)).exit_code(), 1);
    assert_eq!(serve(true, Err("no".into())).to_line(), "err no");
}

#[test]
fn a_daemon_serves_what_it_can() {
    assert!(daemon_can_serve(false, false, &["--layout".to_string()]));
    assert!(!daemon_can_serve(true, false, &[]));
    assert!(!daemon_can_serve(false, true, &[]));
    assert!(!daemon_can_serve(false, false, &["a\nb".to_string()]));
    assert!(daemon_may_run(false, false, false));
    assert!(!daemon_may_run(true, false, false));
}
