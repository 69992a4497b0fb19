//! The switcher: it *acts*. It focuses the window that was picked.
//!
//! Bound to a held modifier it is a true Alt-Tab: hold the modifier, cycle with the keys of
//! [`CycleKeys`], release to switch.

use crate::daemon::{Answer, Reply};
use crate::error::CaptureError;
use crate::front::{
    leaves_nothing, reject_empty_window_filter, reject_hints_on_card, require_window_pids, Refusal,
};
use crate::hints::HintRow;
use crate::keys::{
    a_key_press_reads_back, has_shift, is_alphanumeric, press_of, written, Key, KeyPress, Press,
    UnknownKey,
};
use crate::layout::View as Layout;
use crate::sources::{learned, lists, Filter, Selection, WindowFilters};
use crate::text::{
    ascii_lower, chars_of, find_any_unique, is_space, join, same, split_once, split_once_chars,
    string_of, trimmed_already, views,
};
use crate::ui::{Live, Mode, Options, Order};
use crate::wl::Toplevel;
use vstd::prelude::*;
use vstd::string::*;

verus! {

/// The keys that move the highlight.
#[derive(Debug, PartialEq, Eq)]
pub struct CycleKeys {
    /// The key for the next window.
    pub next: KeyPress,
    /// The key for the previous one.
    pub prev: KeyPress,
}

impl View for CycleKeys {
    type V = (Press, Press);

    open spec fn view(&self) -> (Press, Press) {
        (self.next@, self.prev@)
    }
}

/// The same key with the Shift state toggled.
pub open spec fn toggled(p: Press) -> Press {
    (p.0, !p.1)
}

/// How a pair of keys is written: the short form where that says the same thing.
pub open spec fn written_pair(k: (Press, Press)) -> Seq<char> {
    if k.1 == toggled(k.0) {
        written(k.0)
    } else {
        written(k.0) + ":"@ + written(k.1)
    }
}

/// The pair of keys a text writes: `<next>`, whose other direction is the same key with the
/// Shift state toggled, or `<next>:<prev>`. It is tried whole first, so that a key named
/// with a colon stays writable.
pub open spec fn pair_of(s: Seq<char>) -> Option<(Press, Press)> {
    match press_of(s) {
        Some(next) => Some((next, toggled(next))),
        None => match split_once(s, seq![':']) {
            None => None,
            Some((a, b)) => match (press_of(a), press_of(b)) {
                (Some(next), Some(prev)) => Some((next, prev)),
                _ => None,
            },
        },
    }
}

/// Tab and Shift+Tab.
impl Default for CycleKeys {
    fn default() -> (r: Self)
        ensures
            r@ == (("Tab"@, false), ("Tab"@, true)),
    {
        CycleKeys::from_next(KeyPress { key: Key { name: String::from_str("Tab") }, shifted: false })
    }
}

impl CycleKeys {
    /// Both keys are ones there are.
    pub open spec fn wf(&self) -> bool {
        self.next.wf() && self.prev.wf()
    }

    /// The pair `next` alone stands for: the other direction is the same key with the Shift
    /// state toggled.
    pub fn from_next(next: KeyPress) -> (r: CycleKeys)
        ensures
            r@ == (next@, toggled(next@)),
            next.wf() ==> r.wf(),
    {
        let prev = KeyPress { key: next.key.clone(), shifted: !next.shifted };
        CycleKeys { next, prev }
    }

    /// Write what [`CycleKeys::parse`] reads, in the short form where that says the same
    /// thing.
    pub fn to_string(&self) -> (r: String)
        ensures
            r@ == written_pair(self@),
    {
        let mut out = self.next.to_string();
        if self.prev.shifted == !self.next.shifted && same(
            self.prev.key.name.as_str(),
            self.next.key.name.as_str(),
        ) {
            return out;
        }
        out.append(":");
        let prev = self.prev.to_string();
        out.append(prev.as_str());
        out
    }

    /// Read `<next>` or `<next>:<prev>`.
    pub fn parse(s: &str) -> (r: Result<CycleKeys, UnknownKey>)
        ensures
            match pair_of(s@) {
                Some(p) => r matches Ok(k) && k@ == p && k.wf(),
                None => r matches Err(UnknownKey),
            },
    {
        if let Ok(next) = KeyPress::parse(s) {
            return Ok(CycleKeys::from_next(next));
        }
        let all = chars_of(s);
        let colon: [char; 1] = [':'];
        assert(colon@ =~= seq![':']);
        match split_once_chars(all.as_slice(), &colon) {
            None => Err(UnknownKey),
            Some((a, b)) => {
                let first = string_of(a.as_slice());
                let second = string_of(b.as_slice());
                match (KeyPress::parse(first.as_str()), KeyPress::parse(second.as_str())) {
                    (Ok(next), Ok(prev)) => Ok(CycleKeys { next, prev }),
                    _ => Err(UnknownKey),
                }
            },
        }
    }
}

/// A written key holds no colon, and no white space at either end.
proof fn written_plainly(k: KeyPress)
    requires
        k.wf(),
    ensures
        written(k@).len() > 0,
        !written(k@).contains(':'),
        !is_space(written(k@)[0]),
        !is_space(written(k@).last()),
{
    reveal_strlit("Shift+");
    let w = written(k@);
    let name = k.key@;
    assert("Shift+"@ =~= seq!['S', 'h', 'i', 'f', 't', '+']);
    assert(is_alphanumeric(name[0]));
    assert(is_alphanumeric(name.last()));
    if k.shifted {
        assert(w[0] == 'S');
        assert(w.last() == name.last());
    }
    assert forall|i: int| 0 <= i < w.len() implies w[i] != ':' by {
        if !k.shifted {
            assert(is_alphanumeric(name[i]));
        } else if i >= 6 {
            assert(w[i] == name[i - 6]);
            assert(is_alphanumeric(name[i - 6]));
        }
    }
}

/// Keys read back as what they printed.
pub proof fn cycle_keys_read_back(k: CycleKeys)
    requires
        k.wf(),
    ensures
        pair_of(written_pair(k@)) == Some(k@),
{
    a_key_press_reads_back(k.next);
    a_key_press_reads_back(k.prev);
    if k@.1 != toggled(k@.0) {
        reveal_strlit(":");
        reveal_strlit("Shift+");
        let a = written(k@.0);
        let b = written(k@.1);
        let w = written_pair(k@);
        written_plainly(k.next);
        written_plainly(k.prev);
        assert(":"@ =~= seq![':']);
        assert(w[a.len() as int] == ':');
        assert(w.last() == b.last());
        assert(w[0] == a[0]);
        trimmed_already(w);
        assert(w.contains(':'));
        if has_shift(w) {
            assert("Shift+"@ =~= seq!['S', 'h', 'i', 'f', 't', '+']);
            if a.len() < 6 {
                assert(w.take(6)[a.len() as int] == ':');
                assert(ascii_lower(w.take(6)[a.len() as int]) == ascii_lower(
                    "Shift+"@[a.len() as int],
                ));
            }
            assert(w.skip(6)[a.len() - 6] == ':');
            assert(w.skip(6).contains(':'));
        }
        assert(press_of(w) is None);
        let colon = seq![':'];
        assert(colon[0] == ':');
        assert forall|j: int| 0 <= j < a.len() implies !colon.contains(#[trigger] w[j]) by {
            assert(w[j] == a[j]);
            assert(a.contains(a[j]));
        }
        find_any_unique(w, colon, a.len() as int);
        assert(w.take(a.len() as int) =~= a);
        assert(w.skip(a.len() as int + 1) =~= b);
    }
}

/// Whether the run switches on the modifier's release: by default for the strip (a true
/// Alt-Tab) and not for the exposé or the card; either flag forces it.
pub fn hold(forced: bool, no_hold: bool, layout: Layout) -> (r: bool)
    ensures
        r == (forced || (!no_hold && layout == Layout::Strip)),
{
    if forced {
        true
    } else if no_hold {
        false
    } else {
        layout == Layout::Strip
    }
}

/// Whether hold-to-switch is to be turned off because the run was started from a terminal. A
/// terminal holds no launch modifier, and hold-to-switch reads that as a tap released before
/// the overlay got the keyboard: it would switch before showing anything.
pub fn turns_hold_off(forced: bool, no_hold: bool, from_terminal: bool) -> (r: bool)
    ensures
        r == (!forced && !no_hold && from_terminal),
{
    !forced && !no_hold && from_terminal
}

/// What a run does about the windows the compositor keeps aside.
#[derive(Clone, Copy, Debug, PartialEq, Eq, Structural)]
pub enum Scratchpad {
    /// Offer just those.
    Only,
    /// Offer just the others.
    Exclude,
    /// Offer just those, except that a focused one is put back instead.
    Toggle,
}

/// What is done about the windows kept aside before the overlay.
pub enum Aside {
    /// Put this window back, which is the whole run.
    PutBack(String),
    /// Narrow the overlay's windows.
    Narrow(Filter),
}

/// Do what was asked about the windows kept aside: `aside` are they, where the compositor
/// keeps any, and `focused` the window that has the focus.
pub fn scratchpad_settled(
    mode: Scratchpad,
    aside: Option<Vec<String>>,
    focused: Option<&str>,
) -> (r: Result<Aside, Refusal>)
    ensures
        match (aside, r) {
            (None, Err(e)) => e is ScratchpadUnsupported,
            (Some(ids), Ok(what)) => {
                let on_loan = match focused {
                    Some(f) => views(ids@).contains(f@),
                    None => false,
                };
                match what {
                    Aside::PutBack(w) => mode == Scratchpad::Toggle && on_loan && w@
                        == focused->0@,
                    Aside::Narrow(f) => !(mode == Scratchpad::Toggle && on_loan) && f == if mode
                        == Scratchpad::Exclude {
                        Filter::Except(ids)
                    } else {
                        Filter::Only(ids)
                    },
                }
            },
            _ => false,
        },
{
    match aside {
        None => Err(Refusal::ScratchpadUnsupported),
        Some(ids) => {
            if mode == Scratchpad::Toggle {
                if let Some(f) = focused {
                    if lists(&ids, f) {
                        return Ok(Aside::PutBack(String::from_str(f)));
                    }
                }
            }
            if mode == Scratchpad::Exclude {
                Ok(Aside::Narrow(Filter::except(ids)))
            } else {
                Ok(Aside::Narrow(Filter::only(ids)))
            }
        },
    }
}

/// What a command line asks of the switcher.
pub struct Args {
    pub layout: Layout,
    pub live: Live,
    pub order: Order,
    pub hold: bool,
    pub no_hold: bool,
    pub hints: Option<HintRow>,
    pub include_system: bool,
    pub filters: WindowFilters,
    pub cycle: CycleKeys,
}

/// The overlay a command line asks for: windows, and nothing else. Under hold-to-switch,
/// releasing the modifier switches to the highlighted window; where only one is on offer, that
/// is where the run ends up whatever happens in between, so it is picked straight away.
pub fn options(args: Args) -> (r: Result<Options, Refusal>)
    ensures
        match r {
            Ok(o) => !(args.hints is Some && args.layout == Layout::Card) && o == (Options {
                mode: Mode::Windows,
                show_system: args.include_system,
                grid: None,
                view: args.layout,
                hold: args.hold || (!args.no_hold && args.layout == Layout::Strip),
                live: args.live,
                order: args.order,
                window_filters: args.filters,
                hints: args.hints,
                auto_select: args.hold || (!args.no_hold && args.layout == Layout::Strip),
                cycle: args.cycle,
            }),
            Err(e) => args.hints is Some && args.layout == Layout::Card && e is HintsNeedKeyboard,
        },
{
    if let Err(e) = reject_hints_on_card(args.hints, args.layout) {
        return Err(e);
    }
    let hold = hold(args.hold, args.no_hold, args.layout);
    Ok(
        Options {
            mode: Mode::Windows,
            show_system: args.include_system,
            grid: None,
            view: args.layout,
            hold,
            live: args.live,
            order: args.order,
            window_filters: args.filters,
            hints: args.hints,
            auto_select: hold,
            cycle: args.cycle,
        },
    )
}

/// Settle, before the overlay, everything that decides whether it has anything to show at
/// all: whether windows can be captured, whether the filter on processes can be applied, and
/// whether the filter names an open window.
pub fn preflight(
    filters: &mut WindowFilters,
    can_capture_windows: bool,
    toplevels: &[Toplevel],
    answer: Option<&Vec<(String, u32)>>,
) -> (r: Result<(), Refusal>)
    requires
        old(filters).wf(),
    ensures
        final(filters).wf(),
        final(filters).app_ids == old(filters).app_ids,
        final(filters).titles == old(filters).titles,
        final(filters).pids == old(filters).pids,
        final(filters).identifiers == old(filters).identifiers,
        final(filters).processes@ == if can_capture_windows && old(filters).asks(toplevels@)
            && answer is Some {
            learned(
                old(filters).processes@,
                toplevels@,
                answer->0@,
                toplevels@.len() as int,
            )
        } else {
            old(filters).processes@
        },
        match r {
            Ok(()) => can_capture_windows && !(old(filters).asks(toplevels@) && answer is None)
                && !leaves_nothing(toplevels@, *final(filters)),
            Err(e) => if !can_capture_windows {
                e is NoWindowCapture
            } else if old(filters).asks(toplevels@) && answer is None {
                e is PidUnsupported
            } else {
                leaves_nothing(toplevels@, *final(filters)) && (e matches Refusal::NoMatch(text)
                    && text@ == join(final(filters).flag_texts(), " "@))
            },
        },
{
    if !can_capture_windows {
        return Err(Refusal::NoWindowCapture);
    }
    if let Err(e) = require_window_pids(filters, toplevels, answer) {
        return Err(e);
    }
    reject_empty_window_filter(toplevels, filters)
}

/// What a run came to.
#[derive(Clone, Copy, Debug, PartialEq, Eq, Structural)]
pub enum Ran {
    /// The run did what it was asked.
    Switched,
    /// The user backed out of the overlay, or there was no window to switch to.
    Cancelled,
}

/// What is left to do once the overlay has closed.
#[derive(Clone, Copy, Debug, PartialEq, Eq, Structural)]
pub enum Act {
    /// Focus the picked window.
    Focus,
    /// The run is over: screens are not focusable.
    Over(Ran),
}

/// What is left to do once the overlay has closed.
pub fn after_overlay(picked: Option<&Selection>) -> (r: Act)
    ensures
        r == match picked {
            None => Act::Over(Ran::Cancelled),
            Some(sel) => if sel.is_window {
                Act::Focus
            } else {
                Act::Over(Ran::Switched)
            },
        },
{
    match picked {
        None => Act::Over(Ran::Cancelled),
        Some(sel) => if sel.is_window {
            Act::Focus
        } else {
            Act::Over(Ran::Switched)
        },
    }
}

/// What focusing the picked window came to. A compositor with no protocol for it is a
/// property of the setup, not a bug in this run: it is told as what is missing.
pub fn after_focus(result: Result<(), CaptureError>) -> (r: Result<Ran, Refusal>)
    ensures
        match result {
            Ok(()) => r == Ok::<Ran, Refusal>(Ran::Switched),
            Err(CaptureError::ActivationUnsupported) => r == Err::<Ran, Refusal>(
                Refusal::FocusUnsupported,
            ),
            Err(e) => r matches Err(Refusal::Failed(text)) && text@ == e.text(),
        },
{
    match result {
        Ok(()) => Ok(Ran::Switched),
        Err(CaptureError::ActivationUnsupported) => Err(Refusal::FocusUnsupported),
        Err(e) => Err(Refusal::Failed(e.to_string())),
    }
}

/// Whether a request is a daemon's to serve: a client settles this before asking, so only a
/// hand-sent line is refused.
pub fn daemon_may_run(no_daemon: bool, no_gpu: bool, doctor: bool) -> (r: bool)
    ensures
        r == (!no_daemon && !no_gpu && !doctor),
{
    !no_daemon && !no_gpu && !doctor
}

/// What the daemon answers for a run: `busy` where another overlay holds the lock, else what
/// the run came to, with the reason in the user's words where it was refused.
pub fn serve(locked: bool, ran: Result<Ran, String>) -> (r: Reply)
    ensures
        r@ == if !locked {
            Answer::Busy
        } else {
            match ran {
                Ok(Ran::Switched) => Answer::Done,
                Ok(Ran::Cancelled) => Answer::Cancelled,
                Err(reason) => Answer::Failed(reason@),
            }
        },
{
    if !locked {
        return Reply::Busy;
    }
    match ran {
        Ok(Ran::Switched) => Reply::Done,
        Ok(Ran::Cancelled) => Reply::Cancelled,
        Err(reason) => Reply::Failed(reason),
    }
}

/// The strip is held open by its modifier unless that is turned off; the other layouts only where
/// it is asked for.
pub proof fn the_strip_is_held_open(forced: bool, no_hold: bool, layout: Layout, r: bool)
    requires
        call_ensures(hold, (forced, no_hold, layout), r),
    ensures
        forced ==> r,
        !forced && no_hold ==> !r,
        !forced && !no_hold ==> (r <==> layout == Layout::Strip),
{
}

/// Cycling back is the key of cycling on with Shift the other way round, and turning it round
/// twice leaves it.
pub proof fn shift_cycles_back(next: KeyPress, r: CycleKeys)
    requires
        call_ensures(CycleKeys::from_next, (next,), r),
    ensures
        r.next@ == next@,
        r.prev@.0 == next@.0,
        r.prev@.1 == !next@.1,
        toggled(toggled(next@)) == next@,
{
}

/// What was put aside is shown, or everything else is: the two part the windows. With the one
/// window on loan from it in front, that one is put back instead.
pub proof fn what_was_put_aside_is_told_apart(
    aside: Vec<String>,
    focused: Option<&str>,
    only: Aside,
    except: Aside,
    toggle: Aside,
)
    requires
        call_ensures(
            scratchpad_settled,
            (Scratchpad::Only, Some(aside), focused),
            Ok::<Aside, Refusal>(only),
        ),
        call_ensures(
            scratchpad_settled,
            (Scratchpad::Exclude, Some(aside), focused),
            Ok::<Aside, Refusal>(except),
        ),
        call_ensures(
            scratchpad_settled,
            (Scratchpad::Toggle, Some(aside), focused),
            Ok::<Aside, Refusal>(toggle),
        ),
    ensures
        only matches Aside::Narrow(a) && except matches Aside::Narrow(b) && forall|id: Seq<char>|
            #![trigger a.lets(id)]
            a.lets(id) != b.lets(id) && a.lets(id) == views(aside@).contains(id),
        toggle is PutBack <==> (focused matches Some(f) && views(aside@).contains(f@)),
        toggle matches Aside::PutBack(w) ==> w@ == focused->0@,
        toggle is Narrow ==> toggle == only,
{
}

/// A window that was picked is focused; a screen has nothing to focus; and nothing picked is a
/// cancellation.
pub proof fn what_was_picked_is_focused(picked: Option<&Selection>, r: Act)
    requires
        call_ensures(after_overlay, (picked,), r),
    ensures
        r is Focus <==> (picked matches Some(s) && s.is_window),
        r == Act::Over(Ran::Cancelled) <==> picked is None,
{
}

/// The switcher shows windows, and picks the only one at once where it is held open.
pub proof fn the_switcher_shows_windows(args: Args, o: Options, held: bool)
    requires
        call_ensures(options, (args,), Ok::<Options, Refusal>(o)),
        call_ensures(hold, (args.hold, args.no_hold, args.layout), held),
    ensures
        o.mode == Mode::Windows,
        o.hold == held,
        o.auto_select == held,
        o.grid is None,
        o.hints is Some ==> o.view != Layout::Card,
        o.view == args.layout,
        o.show_system == args.include_system,
{
}

/// A daemon that is showing an overlay answers that it is busy, whatever became of that one.
pub proof fn a_second_overlay_is_refused(locked: bool, ran: Result<Ran, String>, r: Reply)
    requires
        call_ensures(serve, (locked, ran), r),
    ensures
        r@ == Answer::Busy <==> !locked,
        locked ==> (r@ == Answer::Done <==> ran == Ok::<Ran, String>(Ran::Switched)),
        locked ==> (r@ == Answer::Cancelled <==> ran == Ok::<Ran, String>(Ran::Cancelled)),
{
}

} // verus!
