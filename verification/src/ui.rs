//! The picker's behaviour: what is shown, what is highlighted, what is picked and when.
//!
//! An [`App`] is fed the list of sources by the capture thread and the keys by the host. How
//! a frame is painted is the host's; what it shows is here.

use crate::hints::{hint_views, hints, Hint, HintRow, HintView, Keymap};
use crate::keys::Press;
use crate::layout::View as Layout;
use crate::sources::{ranks, Entry, Picked, Selection, Source, Who, WindowFilters, WindowOrder};
use crate::switcher::CycleKeys;
use crate::table::Table;
use crate::text::{
    chars_of, contains, contains_chars, contains_is_transitive, lowercase, lowercase_chars,
};
use crate::wl::WindowIdentity;
use vstd::prelude::*;
use vstd::string::*;

verus! {

/// Which kinds of source to show, switchable at runtime via the tab bar.
#[derive(Clone, Copy, Debug, PartialEq, Eq, Structural)]
pub enum Mode {
    All,
    Windows,
    Outputs,
}

impl Default for Mode {
    fn default() -> (r: Self)
        ensures
            r == Mode::All,
    {
        Mode::All
    }
}

/// Which tiles show a *live* capture in the Alt-Tab strip (as against just the app icon).
#[derive(Clone, Copy, Debug, PartialEq, Eq, Structural)]
pub enum Live {
    /// App icons only.
    Off,
    /// Only the highlighted window shows a live preview; others show their icon.
    Current,
    /// Every window shows its live preview.
    All,
}

impl Default for Live {
    fn default() -> (r: Self)
        ensures
            r == Live::All,
    {
        Live::All
    }
}

impl Live {
    /// Whether the tile at `index` shows a live preview while `selected` is highlighted.
    pub fn shows(self, index: usize, selected: usize) -> (r: bool)
        ensures
            r == match self {
                Live::Off => false,
                Live::All => true,
                Live::Current => index == selected,
            },
    {
        match self {
            Live::Off => false,
            Live::All => true,
            Live::Current => index == selected,
        }
    }
}

/// How windows are ordered; outputs always come first, by name.
#[derive(Clone, Copy, Debug, PartialEq, Eq, Structural)]
pub enum Order {
    /// By app id, then title.
    ByName,
    /// Most recently focused first, if the compositor reports it; by name otherwise.
    Mru,
}

impl Order {
    /// The window order to apply: the compositor's focus history, or none of it. The history
    /// describes the state the overlay is about to replace, so it has to be read before the
    /// overlay takes the keyboard.
    pub fn resolve(self, history: &[&str]) -> (r: WindowOrder)
        ensures
            r.wf(),
            match self {
                Order::ByName => r is ByName,
                Order::Mru => r matches WindowOrder::Mru(rank) && rank@ == ranks(
                    history@,
                    history@.len() as int,
                ),
            },
    {
        match self {
            Order::ByName => WindowOrder::ByName,
            Order::Mru => WindowOrder::mru(history),
        }
    }
}

/// How the picker presents and behaves, as resolved from the command line.
pub struct Options {
    pub mode: Mode,
    pub show_system: bool,
    /// Fixed grid size (columns, rows), or `None` for an auto-fitting grid.
    pub grid: Option<(u32, u32)>,
    /// How sources are presented (card, strip, grid).
    pub view: Layout,
    /// Hold-to-switch: confirm and close when the held launch modifier is released.
    pub hold: bool,
    /// Which Alt-Tab tiles show a live preview (as against just the icon).
    pub live: Live,
    pub order: Order,
    /// Which windows the run offers at all; applied before capture.
    pub window_filters: WindowFilters,
    /// Label the tiles with a key that picks them, taken from this physical row, or `None`
    /// to leave them bare.
    pub hints: Option<HintRow>,
    /// Pick the only source on offer without waiting to be told.
    pub auto_select: bool,
    /// The keys that move the highlight while a launch modifier is held.
    pub cycle: CycleKeys,
}

/// How long the tiles stay hidden in hold-to-switch mode if keyboard focus never arrives, in
/// microseconds.
///
/// Safety net to avoid leaving a screen-sized fully transparent overlay which, still
/// swallowing every click, could render the desktop unusable.
pub const REVEAL_BACKSTOP_MICROS: u64 = 150_000;

/// The keys pressed since the last frame, and when the frame is.
#[derive(Clone, Copy)]
pub struct FrameInput {
    pub escape: bool,
    pub right: bool,
    pub down: bool,
    pub left: bool,
    pub up: bool,
    pub tab: bool,
    pub shift: bool,
    pub enter: bool,
    /// The frame's time, in microseconds.
    pub now: u64,
}

/// The picker's state.
pub struct App {
    /// The latest source list from the capture thread; `None` until the first arrives.
    pub sources: Option<Vec<Source>>,
    /// What is typed in the filter field.
    pub filter: String,
    pub mode: Mode,
    pub show_system: bool,
    /// Fixed grid size (columns, rows), or `None` for an auto-fitting grid.
    pub grid: Option<(u32, u32)>,
    /// How sources are presented (card, strip, grid).
    pub view: Layout,
    /// Selected index into the *visible* list, for keyboard navigation.
    pub selected: usize,
    /// Hold-to-switch: release of the launch modifier confirms (host-driven).
    pub hold: bool,
    /// Which Alt-Tab tiles show a live preview (as against just the icon).
    pub live: Live,
    /// Set once the host arms hold-to-switch; enables Tab-cycle and confirm-on-release.
    pub armed: bool,
    /// Once armed with sources present, place the initial selection so that releasing the
    /// modifier immediately switches, like a real Alt-Tab whose launching Tab already
    /// advanced once.
    pub pending_initial_select: bool,
    /// The window that had the focus at launch, if it could be read: the one the initial
    /// selection steps away from.
    pub focused: Option<WindowIdentity>,
    /// A confirm that landed before the source list did, carried out as soon as there is
    /// one.
    pub pending_confirm: bool,
    /// Whether the tiles are drawn yet; held back under hold-to-switch until the tap
    /// question is settled.
    pub revealed: bool,
    /// When the first frame was, in microseconds.
    pub first_frame: Option<u64>,
    /// Focus the filter field on the first frame.
    pub focus_filter: bool,
    /// Set once a choice is made or the picker is cancelled; the host loop exits.
    pub closing: bool,
    /// The chosen source.
    pub out: Option<Selection>,
    /// Which physical row the tile hints come from, or `None` when they are off.
    pub hint_row: Option<HintRow>,
    /// The hints handed to the tiles, in tile order; empty until there is a keymap.
    pub hints: Vec<Hint>,
    /// Pick the only source on offer without waiting to be told.
    pub auto_select: bool,
    /// The keys that move the highlight while a launch modifier is held.
    pub cycle: CycleKeys,
}

/// The picker's state, as it is spoken of.
pub struct Overlay {
    pub sources: Option<Seq<Entry>>,
    pub filter: Seq<char>,
    pub mode: Mode,
    pub show_system: bool,
    pub grid: Option<(u32, u32)>,
    pub view: Layout,
    pub selected: usize,
    pub hold: bool,
    pub live: Live,
    pub armed: bool,
    pub pending_initial_select: bool,
    pub focused: Option<Who>,
    pub pending_confirm: bool,
    pub revealed: bool,
    pub first_frame: Option<u64>,
    pub focus_filter: bool,
    pub closing: bool,
    pub out: Option<Picked>,
    pub hint_row: Option<HintRow>,
    pub hints: Seq<HintView>,
    pub auto_select: bool,
    pub cycle: (Press, Press),
}

/// The entries of a list of sources.
pub open spec fn entries(v: Seq<Source>) -> Seq<Entry> {
    v.map_values(|s: Source| s@)
}

impl View for App {
    type V = Overlay;

    open spec fn view(&self) -> Overlay {
        Overlay {
            sources: match self.sources {
                Some(v) => Some(entries(v@)),
                None => None,
            },
            filter: self.filter@,
            mode: self.mode,
            show_system: self.show_system,
            grid: self.grid,
            view: self.view,
            selected: self.selected,
            hold: self.hold,
            live: self.live,
            armed: self.armed,
            pending_initial_select: self.pending_initial_select,
            focused: match self.focused {
                Some(w) => Some(w@),
                None => None,
            },
            pending_confirm: self.pending_confirm,
            revealed: self.revealed,
            first_frame: self.first_frame,
            focus_filter: self.focus_filter,
            closing: self.closing,
            out: match self.out {
                Some(s) => Some(s@),
                None => None,
            },
            hint_row: self.hint_row,
            hints: hint_views(self.hints@),
            auto_select: self.auto_select,
            cycle: self.cycle@,
        }
    }
}

/// The first entry, from the `k`-th on, that is not that window.
pub open spec fn first_other(v: Seq<Entry>, w: Who, k: int) -> Option<int>
    decreases v.len() - k,
{
    if k < 0 || k >= v.len() {
        None
    } else if !v[k].denotes(w) {
        Some(k)
    } else {
        first_other(v, w, k + 1)
    }
}

/// The place of the hint for a key, from the `k`-th on.
pub open spec fn hint_at(v: Seq<HintView>, code: u32, k: int) -> Option<int>
    decreases v.len() - k,
{
    if k < 0 || k >= v.len() {
        None
    } else if v[k].0 == code {
        Some(k)
    } else {
        hint_at(v, code, k + 1)
    }
}

/// One place on among `n`, around the end.
pub open spec fn after(selected: usize, n: nat) -> usize {
    ((selected + 1) % n as int) as usize
}

/// One place back among `n`, around the start.
pub open spec fn back(selected: usize, n: nat) -> usize {
    ((selected + n - 1) % n as int) as usize
}

impl Overlay {
    /// Whether an entry is shown: system windows only on demand, the kinds that the mode
    /// asks for, and what matches the filter field.
    pub open spec fn shows(self, e: Entry) -> bool {
        &&& self.show_system || !e.is_system
        &&& match self.mode {
            Mode::All => true,
            Mode::Windows => e.is_window,
            Mode::Outputs => !e.is_window,
        }
        &&& lowercase(self.filter).len() == 0 || contains(e.filter, lowercase(self.filter))
    }

    /// The predicate behind [`Overlay::visible`].
    pub open spec fn shown(self) -> spec_fn(Entry) -> bool {
        |e: Entry| self.shows(e)
    }

    /// The entries that are shown, in the list's order.
    pub open spec fn visible(self) -> Seq<Entry> {
        match self.sources {
            Some(v) => v.filter(self.shown()),
            None => Seq::empty(),
        }
    }

    /// Whether a system window is listed.
    pub open spec fn lists_system(self) -> bool {
        match self.sources {
            Some(v) => exists|i: int| 0 <= i < v.len() && (#[trigger] v[i]).is_system,
            None => false,
        }
    }

    /// Whether the tiles are labelled. Only the views that own the whole keyboard do: the
    /// card has a filter field the user types into, where a letter is a letter.
    pub open spec fn labels_tiles(self) -> bool {
        self.hint_row is Some && (self.view == Layout::Strip || self.view == Layout::Grid)
    }

    /// A keymap arrived: where tiles are labelled, they are from its keys.
    pub open spec fn mapped(self, keymap: Keymap) -> Overlay {
        if self.labels_tiles() {
            Overlay { hints: keymap.offers(self.hint_row->0.codes()), ..self }
        } else {
            self
        }
    }

    /// A source was picked.
    pub open spec fn chosen(self, p: Picked) -> Overlay {
        Overlay { out: Some(p), closing: true, ..self }
    }

    /// Hold-to-switch was armed.
    pub open spec fn now_armed(self) -> Overlay {
        if self.armed {
            self
        } else {
            Overlay { armed: true, pending_initial_select: true, ..self }
        }
    }

    /// The initial selection, once there are sources: the first visible window that is not
    /// the one the user is on, else the first tile.
    pub open spec fn placed(self) -> Overlay {
        if self.pending_initial_select && self.sources is Some {
            Overlay {
                pending_initial_select: false,
                selected: match self.focused {
                    Some(w) => match first_other(self.visible(), w, 0) {
                        Some(i) => i as usize,
                        None => 0,
                    },
                    None => 0,
                },
                ..self
            }
        } else {
            self
        }
    }

    /// The highlight moved on or back.
    pub open spec fn cycled(self, forward: bool) -> Overlay {
        let n = self.visible().len();
        if n == 0 {
            self
        } else {
            Overlay {
                pending_initial_select: false,
                selected: if forward {
                    after(self.selected, n)
                } else {
                    back(self.selected, n)
                },
                ..self
            }
        }
    }

    /// The highlighted source was confirmed.
    pub open spec fn confirmed(self) -> Overlay {
        if self.closing {
            self
        } else if self.sources is None {
            Overlay { pending_confirm: true, ..self }
        } else {
            let o = self.placed();
            if o.selected < o.visible().len() {
                o.chosen(o.visible()[o.selected as int].pick())
            } else {
                Overlay { closing: true, ..o }
            }
        }
    }

    /// A confirm that was waiting for sources is carried out, if there are any.
    pub open spec fn caught_up(self) -> Overlay {
        if self.pending_confirm && self.sources is Some {
            Overlay { pending_confirm: false, ..self }.confirmed()
        } else {
            self
        }
    }

    /// A new list of sources came in. Where that is asked for, the only source the first list
    /// offers is picked.
    pub open spec fn listed(self, v: Seq<Entry>) -> Overlay {
        let o = Overlay { sources: Some(v), ..self };
        if self.auto_select && self.sources is None && !self.closing && o.visible().len() == 1 {
            o.chosen(o.visible()[0].pick())
        } else {
            o
        }
    }

    /// The tile that a key labels, where it labels one.
    pub open spec fn hinted(self, code: u32) -> Option<int> {
        if !self.labels_tiles() || self.closing {
            None
        } else {
            match hint_at(self.hints, code, 0) {
                Some(i) => if i < self.visible().len() {
                    Some(i)
                } else {
                    None
                },
                None => None,
            }
        }
    }

    /// The key of a hint was pressed.
    pub open spec fn hint_pressed(self, code: u32) -> Overlay {
        match self.hinted(code) {
            Some(i) => Overlay { selected: i as usize, ..self }.chosen(self.visible()[i].pick()),
            None => self,
        }
    }

    /// Whether a frame's keys move the highlight on.
    pub open spec fn moves_on(self, k: FrameInput) -> bool {
        k.right || k.down || (self.view != Layout::Card && k.tab && !k.shift)
    }

    /// Whether a frame's keys move the highlight back.
    pub open spec fn moves_back(self, k: FrameInput) -> bool {
        k.left || k.up || (self.view != Layout::Card && k.tab && k.shift)
    }

    /// Where a frame's keys leave the highlight.
    pub open spec fn moved(self, k: FrameInput) -> usize {
        let n = self.visible().len();
        let s1 = if n > 0 && self.moves_on(k) {
            after(self.selected, n)
        } else {
            self.selected
        };
        if n > 0 && self.moves_back(k) {
            back(s1, n)
        } else {
            s1
        }
    }

    /// A frame's keys were taken in.
    pub open spec fn keyed(self, k: FrameInput) -> Overlay {
        let at = self.moved(k);
        let o = Overlay { closing: self.closing || k.escape, selected: at, ..self };
        if k.enter && at < self.visible().len() {
            o.chosen(self.visible()[at as int].pick())
        } else {
            o
        }
    }

    /// The backstop was looked at: tiles are shown once they were held back for long enough.
    pub open spec fn backstopped(self, now: u64) -> Overlay {
        if self.revealed {
            self
        } else {
            match self.first_frame {
                None => Overlay { first_frame: Some(now), ..self },
                Some(first) => if now - first >= REVEAL_BACKSTOP_MICROS {
                    Overlay { revealed: true, ..self }
                } else {
                    self
                },
            }
        }
    }

    /// A frame was run.
    pub open spec fn framed(self, k: FrameInput) -> Overlay {
        let o = self.placed().caught_up();
        if o.closing {
            o
        } else {
            o.keyed(k).backstopped(k.now)
        }
    }

    /// Whether a frame is painted: not when the picker closed before its keys, and not while
    /// the tiles are held back.
    pub open spec fn paints(self, k: FrameInput) -> bool {
        !self.placed().caught_up().closing && self.framed(k).revealed
    }
}

/// What is shown depends on the list, the filter field and what is asked for alone.
proof fn same_tiles(a: Overlay, b: Overlay)
    requires
        a.sources == b.sources,
        a.filter == b.filter,
        a.mode == b.mode,
        a.show_system == b.show_system,
    ensures
        a.visible() == b.visible(),
{
    assert(a.shown() =~= b.shown());
}

/// The wrapped step on, without adding one to the largest number.
fn step_on(selected: usize, n: usize) -> (r: usize)
    requires
        n > 0,
    ensures
        r == after(selected, n as nat),
        r < n,
{
    let m: usize = selected % n;
    proof {
        vstd::arithmetic::div_mod::lemma_add_mod_noop(selected as int, 1, n as int);
        if n > 1 {
            vstd::arithmetic::div_mod::lemma_small_mod(1, n as nat);
        }
        if m + 1 < n {
            vstd::arithmetic::div_mod::lemma_small_mod((m + 1) as nat, n as nat);
        } else {
            vstd::arithmetic::div_mod::lemma_mod_self_0(n as int);
        }
    }
    if m == n - 1 {
        0
    } else {
        m + 1
    }
}

/// The wrapped step back.
fn step_back(selected: usize, n: usize) -> (r: usize)
    requires
        n > 0,
    ensures
        r == back(selected, n as nat),
        r < n,
{
    let m: usize = selected % n;
    proof {
        vstd::arithmetic::div_mod::lemma_add_mod_noop(selected as int, n - 1, n as int);
        vstd::arithmetic::div_mod::lemma_small_mod((n - 1) as nat, n as nat);
        if m == 0 {
        } else {
            vstd::arithmetic::div_mod::lemma_mod_add_multiples_vanish(m - 1, n as int);
            vstd::arithmetic::div_mod::lemma_small_mod((m - 1) as nat, n as nat);
        }
    }
    if m == 0 {
        n - 1
    } else {
        m - 1
    }
}

impl App {
    /// A picker with no sources yet. Without hold-to-switch there is no tap to mistake the
    /// first frames for, so the tiles are drawn straight away.
    pub fn new(opts: Options, focused: Option<WindowIdentity>) -> (r: App)
        ensures
            r@ == (Overlay {
                sources: None,
                filter: Seq::empty(),
                mode: opts.mode,
                show_system: opts.show_system,
                grid: opts.grid,
                view: opts.view,
                selected: 0,
                hold: opts.hold,
                live: opts.live,
                armed: false,
                pending_initial_select: false,
                focused: match focused {
                    Some(w) => Some(w@),
                    None => None,
                },
                pending_confirm: false,
                revealed: !opts.hold,
                first_frame: None,
                focus_filter: true,
                closing: false,
                out: None,
                hint_row: opts.hints,
                hints: Seq::empty(),
                auto_select: opts.auto_select,
                cycle: opts.cycle@,
            }),
    {
        let r = App {
            sources: None,
            filter: String::new(),
            mode: opts.mode,
            show_system: opts.show_system,
            grid: opts.grid,
            view: opts.view,
            selected: 0,
            hold: opts.hold,
            live: opts.live,
            armed: false,
            pending_initial_select: false,
            focused,
            pending_confirm: false,
            revealed: !opts.hold,
            first_frame: None,
            focus_filter: true,
            closing: false,
            out: None,
            hint_row: opts.hints,
            hints: Vec::new(),
            auto_select: opts.auto_select,
            cycle: opts.cycle,
        };
        assert(r@.filter =~= Seq::empty());
        assert(r@.hints =~= Seq::empty());
        r
    }

    /// True once a selection or cancellation happened; the host loop should exit.
    pub fn closing(&self) -> (r: bool)
        ensures
            r == self@.closing,
    {
        self.closing
    }

    /// Cancel without a selection (such as when the compositor closed the surface).
    pub fn cancel(&mut self)
        ensures
            final(self)@ == (Overlay { closing: true, ..old(self)@ }),
    {
        self.closing = true;
    }

    /// Whether hold-to-switch is on; the host watches the launch modifier if it is.
    pub fn hold(&self) -> (r: bool)
        ensures
            r == self@.hold,
    {
        self.hold
    }

    /// Whether this run labels its tiles with a key that picks them.
    pub fn hints_apply(&self) -> (r: bool)
        ensures
            r == self@.labels_tiles(),
    {
        self.hint_row.is_some() && (self.view == Layout::Strip || self.view == Layout::Grid)
    }

    /// Take the compositor's keymap and work out this layout's hints.
    ///
    /// The host calls this whenever the keymap arrives or changes, so the labels always name
    /// the keys of the layout in force, and never the ones of the layout the alphabet
    /// happened to be written for.
    pub fn set_keymap(&mut self, keymap: &Keymap)
        ensures
            final(self)@ == old(self)@.mapped(*keymap),
    {
        if self.hints_apply() {
            if let Some(row) = self.hint_row {
                self.hints = hints(keymap, row);
            }
        }
    }

    /// Pick the tile the physical key `code` labels, and say whether it did: the host then
    /// keeps the keystroke to itself rather than passing it on.
    ///
    /// The match is on the position, not on the character: the label was read off that same
    /// position, so the key that shows and the key that fires are the same one whatever the
    /// layout, and whatever modifier is held. Picking is immediate, like a click on the tile.
    pub fn press_hint(&mut self, code: u32) -> (r: bool)
        ensures
            r == (old(self)@.hinted(code) is Some),
            final(self)@ == old(self)@.hint_pressed(code),
    {
        if !self.hints_apply() || self.closing {
            return false;
        }
        let ghost o = self@;
        let mut i: usize = 0;
        let n: usize = self.hints.len();
        while i < n && self.hints[i].code != code
            invariant
                self@ == o,
                n == self.hints@.len(),
                o.hints == hint_views(self.hints@),
                i <= n,
                hint_at(o.hints, code, 0) == hint_at(o.hints, code, i as int),
            decreases n - i,
        {
            assert(o.hints[i as int] == self.hints@[i as int]@);
            i = i + 1;
        }
        if i == n {
            return false;
        }
        assert(o.hints[i as int] == self.hints@[i as int]@);
        let vis = self.visible();
        if i >= vis.len() {
            return false;
        }
        let sel = vis[i].selection();
        self.selected = i;
        self.pick(sel);
        true
    }

    /// The character labelling the tile at `index`, if it has one.
    pub fn hint_label(&self, index: usize) -> (r: Option<&str>)
        ensures
            match r {
                Some(s) => self@.labels_tiles() && index < self@.hints.len() && s@
                    == self@.hints[index as int].1,
                None => !self@.labels_tiles() || index >= self@.hints.len(),
            },
    {
        if self.hints_apply() && index < self.hints.len() {
            assert(self@.hints[index as int] == self.hints@[index as int]@);
            Some(self.hints[index].label.as_str())
        } else {
            None
        }
    }

    /// Arm hold-to-switch: enable Tab-cycle and confirm-on-release, and arm the initial
    /// selection.
    pub fn arm(&mut self)
        ensures
            final(self)@ == old(self)@.now_armed(),
    {
        if !self.armed {
            self.armed = true;
            self.pending_initial_select = true;
        }
    }

    /// Draw the tiles from now on.
    ///
    /// Under hold-to-switch the first frames are blank on purpose. The surface has to be
    /// mapped before the compositor hands over keyboard focus, and only with focus can a
    /// held modifier be told from one released before anyone was listening. Until then the
    /// overlay is present but shows nothing, so a quick tap can resolve without flickering.
    pub fn unveil(&mut self)
        ensures
            final(self)@ == (Overlay { revealed: true, ..old(self)@ }),
    {
        self.revealed = true;
    }

    fn apply_reveal_backstop(&mut self, now: u64)
        ensures
            final(self)@ == old(self)@.backstopped(now),
    {
        if !self.revealed {
            match self.first_frame {
                None => {
                    self.first_frame = Some(now);
                },
                Some(first) => {
                    if now >= first && now - first >= REVEAL_BACKSTOP_MICROS {
                        self.unveil();
                    }
                },
            }
        }
    }

    /// Place the initial selection, once sources exist: on the first visible window that is
    /// *not* the one the user is on, whatever the order. A switcher exists to leave the
    /// current window, so releasing the modifier straight away must land somewhere else.
    ///
    /// The current window being unknown or absent from the list falls back to the first
    /// tile, which is then not the one the user is on either.
    pub fn apply_initial_select(&mut self)
        ensures
            final(self)@ == old(self)@.placed(),
    {
        if self.pending_initial_select && self.sources.is_some() {
            let ghost o = self@;
            let mut at: usize = 0;
            if let Some(w) = &self.focused {
                let vis = self.visible();
                let n: usize = vis.len();
                let mut i: usize = 0;
                while i < n && vis[i].is(w)
                    invariant
                        n == vis@.len(),
                        i <= n,
                        vis@.len() == o.visible().len(),
                        forall|j: int|
                            0 <= j < n ==> (#[trigger] vis@[j])@ == o.visible()[j],
                        first_other(o.visible(), w@, 0) == first_other(
                            o.visible(),
                            w@,
                            i as int,
                        ),
                    decreases n - i,
                {
                    i = i + 1;
                }
                if i < n {
                    at = i;
                }
            }
            self.pending_initial_select = false;
            self.selected = at;
        }
    }

    /// Advance (or retreat) the highlighted source. With nothing to cycle yet, the pending
    /// initial placement is kept; else the key supersedes it.
    pub fn cycle(&mut self, forward: bool)
        ensures
            final(self)@ == old(self)@.cycled(forward),
    {
        let n: usize = self.visible().len();
        if n == 0 {
            return;
        }
        self.pending_initial_select = false;
        self.selected = if forward {
            step_on(self.selected, n)
        } else {
            step_back(self.selected, n)
        };
    }

    /// The held launch modifier was released: confirm the highlighted source and quit. A
    /// quick release gets here before the first frame, so the sources may not be in yet.
    pub fn confirm_release(&mut self)
        ensures
            final(self)@ == old(self)@.confirmed(),
    {
        if self.closing {
            return;
        }
        if self.sources.is_none() {
            self.pending_confirm = true;
            return;
        }
        self.apply_initial_select();
        match self.selection_at(self.selected) {
            Some(sel) => {
                self.pick(sel);
            },
            None => {
                self.closing = true;
            },
        }
    }

    /// What is picked at a place among the visible sources.
    pub fn selection_at(&self, index: usize) -> (r: Option<Selection>)
        ensures
            match r {
                Some(s) => index < self@.visible().len() && s@ == self@.visible()[index as
                    int].pick(),
                None => index >= self@.visible().len(),
            },
    {
        let vis = self.visible();
        if index < vis.len() {
            Some(vis[index].selection())
        } else {
            None
        }
    }

    /// Apply the pending confirm, once sources exist.
    pub fn apply_confirm(&mut self)
        ensures
            final(self)@ == old(self)@.caught_up(),
    {
        if self.pending_confirm && self.sources.is_some() {
            self.pending_confirm = false;
            self.confirm_release();
        }
    }

    /// Pick a source, and close.
    pub fn pick(&mut self, sel: Selection)
        ensures
            final(self)@ == old(self)@.chosen(sel@),
    {
        self.out = Some(sel);
        self.closing = true;
    }

    /// Take the list of sources.
    pub fn set_sources(&mut self, sources: Vec<Source>)
        ensures
            final(self)@ == old(self)@.listed(entries(sources@)),
    {
        let first = self.sources.is_none();
        self.sources = Some(sources);
        if self.auto_select && first && !self.closing && self.visible().len() == 1 {
            if let Some(sel) = self.selection_at(0) {
                self.pick(sel);
            }
        }
    }

    /// The sources that are shown, in the list's order.
    pub fn visible(&self) -> (r: Vec<&Source>)
        ensures
            r@.len() == self@.visible().len(),
            forall|i: int| 0 <= i < r@.len() ==> (#[trigger] r@[i])@ == self@.visible()[i],
    {
        let ghost o = self@;
        let mut out: Vec<&Source> = Vec::new();
        let f = lowercase_chars(chars_of(self.filter.as_str()).as_slice());
        if let Some(v) = &self.sources {
            let ghost all = entries(v@);
            assert(all.take(0).filter(o.shown()) =~= Seq::empty()) by {
                reveal(Seq::filter);
            }
            for i in 0..v.len()
                invariant
                    o == self@,
                    f@ == lowercase(self.filter@),
                    all == entries(v@),
                    out@.len() == all.take(i as int).filter(o.shown()).len(),
                    forall|j: int|
                        0 <= j < out@.len() ==> (#[trigger] out@[j])@ == all.take(i as int).filter(
                            o.shown(),
                        )[j],
            {
                let s = &v[i];
                let fits = (self.show_system || !s.is_system) && match self.mode {
                    Mode::All => true,
                    Mode::Windows => s.is_window,
                    Mode::Outputs => !s.is_window,
                } && (f.len() == 0 || contains_chars(
                    chars_of(s.filter.as_str()).as_slice(),
                    f.as_slice(),
                ));
                proof {
                    assert(all[i as int] == s@);
                    assert(fits == o.shows(s@));
                    reveal(Seq::filter);
                    assert(all.take(i + 1).drop_last() =~= all.take(i as int));
                    assert(all.take(i + 1).last() == all[i as int]);
                }
                if fits {
                    out.push(s);
                }
            }
            assert(all.take(v@.len() as int) =~= all);
        }
        out
    }

    /// Whether any captured source is a system window (to decide if the toggle that reveals
    /// them is shown).
    pub fn has_system(&self) -> (r: bool)
        ensures
            r == self@.lists_system(),
    {
        if let Some(v) = &self.sources {
            let ghost all = entries(v@);
            for i in 0..v.len()
                invariant
                    self@.sources == Some(all),
                    all == entries(v@),
                    forall|j: int| 0 <= j < i ==> !(#[trigger] all[j]).is_system,
            {
                assert(all[i as int] == v@[i as int]@);
                if v[i].is_system {
                    assert(self@.sources->0[i as int].is_system);
                    return true;
                }
            }
        }
        false
    }

    fn steer(&self, k: &FrameInput) -> (r: usize)
        ensures
            r == self@.moved(*k),
    {
        let n: usize = self.visible().len();
        let nav = self.view == Layout::Strip || self.view == Layout::Grid;
        let next = k.right || k.down || (nav && k.tab && !k.shift);
        let prev = k.left || k.up || (nav && k.tab && k.shift);
        let mut at: usize = self.selected;
        if n > 0 {
            if next {
                at = step_on(at, n);
            }
            if prev {
                at = step_back(at, n);
            }
        }
        at
    }

    fn keyboard(&mut self, k: &FrameInput)
        ensures
            final(self)@ == old(self)@.keyed(*k),
    {
        let at: usize = self.steer(k);
        let sel = if k.enter {
            self.selection_at(at)
        } else {
            None
        };
        self.selected = at;
        self.closing = self.closing || k.escape;
        if let Some(sel) = sel {
            self.pick(sel);
        }
    }

    /// Run one frame: place what is pending, take in the keys, and see whether the tiles are
    /// to be painted. In the views with no search field (exposé grid, Alt-Tab strip) Tab and
    /// Shift+Tab also navigate, even when not armed; when armed, the host intercepts Tab
    /// before.
    pub fn run_ui(&mut self, k: &FrameInput) -> (r: bool)
        ensures
            final(self)@ == old(self)@.framed(*k),
            r == old(self)@.paints(*k),
    {
        self.apply_initial_select();
        self.apply_confirm();
        if self.closing {
            return false;
        }
        self.keyboard(k);
        self.apply_reveal_backstop(k.now);
        self.revealed
    }

    /// The tabs of the card: a change of mode starts at the first tile.
    pub fn set_mode(&mut self, mode: Mode)
        ensures
            final(self)@ == (Overlay {
                mode,
                selected: if mode == old(self)@.mode {
                    old(self)@.selected
                } else {
                    0
                },
                ..old(self)@
            }),
    {
        if mode != self.mode {
            self.mode = mode;
            self.selected = 0;
        }
    }

    /// The card's toggle for system windows: a change starts at the first tile.
    pub fn set_show_system(&mut self, show: bool)
        ensures
            final(self)@ == (Overlay {
                show_system: show,
                selected: if show == old(self)@.show_system {
                    old(self)@.selected
                } else {
                    0
                },
                ..old(self)@
            }),
    {
        if show != self.show_system {
            self.show_system = show;
            self.selected = 0;
        }
    }

    /// The filter field was edited: start at the first tile.
    pub fn set_filter(&mut self, filter: String)
        ensures
            final(self)@ == (Overlay { filter: filter@, selected: 0, ..old(self)@ }),
    {
        self.filter = filter;
        self.selected = 0;
    }

    /// Whether the filter field takes the keyboard on this frame: on the first one only.
    pub fn take_filter_focus(&mut self) -> (r: bool)
        ensures
            r == old(self)@.focus_filter,
            final(self)@ == (Overlay { focus_filter: false, ..old(self)@ }),
    {
        let first = self.focus_filter;
        self.focus_filter = false;
        first
    }

    /// The pointer is over the tile at `index` of the strip: it is highlighted.
    pub fn hover(&mut self, index: usize)
        ensures
            final(self)@ == (Overlay { selected: index, ..old(self)@ }),
    {
        self.selected = index;
    }

    /// The place the strip highlights: the last tile where the selection is past it.
    pub fn highlighted(&self) -> (r: Option<usize>)
        ensures
            r == if self@.visible().len() == 0 {
                None
            } else if self@.selected < self@.visible().len() {
                Some(self@.selected)
            } else {
                Some((self@.visible().len() - 1) as usize)
            },
    {
        let n: usize = self.visible().len();
        if n == 0 {
            None
        } else if self.selected < n {
            Some(self.selected)
        } else {
            Some(n - 1)
        }
    }

    /// Whether the dimmed backdrop is painted: nothing is while the tiles are held back.
    pub fn dims(&self) -> (r: bool)
        ensures
            r == self@.revealed,
    {
        self.revealed
    }
}

/// A release before the source list is carried out as soon as the list is there, to the same
/// effect as a release after it.
pub proof fn an_early_release_is_not_lost(o: Overlay, v: Seq<Entry>)
    requires
        o.sources is None,
        !o.closing,
        !o.pending_confirm,
    ensures
        o.confirmed().listed(v).caught_up() == o.listed(v).confirmed(),
{
    let (early, late) = (o.confirmed(), o);
    same_tiles(Overlay { sources: Some(v), ..early }, Overlay { sources: Some(v), ..late });
    assert(Overlay { pending_confirm: false, ..early.listed(v) } == late.listed(v));
}

/// The first entry that is not the window is one that is not the window, and all before it
/// are.
proof fn first_other_is_first(v: Seq<Entry>, w: Who, k: int)
    requires
        0 <= k <= v.len(),
    ensures
        match first_other(v, w, k) {
            Some(i) => k <= i < v.len() && !v[i].denotes(w) && forall|j: int|
                k <= j < i ==> (#[trigger] v[j]).denotes(w),
            None => forall|j: int| k <= j < v.len() ==> (#[trigger] v[j]).denotes(w),
        },
    decreases v.len() - k,
{
    if k < v.len() {
        first_other_is_first(v, w, k + 1);
    }
}

/// Releasing the modifier right after launch never switches to the window the user is on, if
/// another one is shown.
pub proof fn a_quick_release_leaves_the_current_window(o: Overlay, i: int)
    requires
        !o.closing,
        o.pending_initial_select,
        o.sources is Some,
        o.visible().len() <= usize::MAX,
        o.focused matches Some(w) && 0 <= i < o.visible().len() && !o.visible()[i].denotes(w),
    ensures
        exists|j: int|
            0 <= j < o.visible().len() && !(#[trigger] o.visible()[j]).denotes(o.focused->0)
                && o.confirmed().out == Some(o.visible()[j].pick()),
        o.confirmed().closing,
{
    let w = o.focused->0;
    first_other_is_first(o.visible(), w, 0);
    let j = first_other(o.visible(), w, 0)->0;
    same_tiles(o.placed(), o);
    assert(o.placed().selected == j);
    assert(!o.visible()[j].denotes(w));
}

/// Once the picker closes, a release changes nothing.
pub proof fn a_choice_is_final(o: Overlay)
    requires
        o.closing,
    ensures
        o.confirmed() == o,
{
}

/// Cycling forward and back comes back to where it was.
pub proof fn cycling_back_undoes_cycling_forward(o: Overlay)
    requires
        o.selected < o.visible().len() <= usize::MAX,
        !o.pending_initial_select,
    ensures
        o.cycled(true).cycled(false) == o,
        o.cycled(false).cycled(true) == o,
{
    let n = o.visible().len() as int;
    let s = o.selected as int;
    same_tiles(o.cycled(true), o);
    same_tiles(o.cycled(false), o);
    if s + 1 < n {
        vstd::arithmetic::div_mod::lemma_small_mod((s + 1) as nat, n as nat);
        vstd::arithmetic::div_mod::lemma_mod_add_multiples_vanish(s, n);
        vstd::arithmetic::div_mod::lemma_small_mod(s as nat, n as nat);
    } else {
        vstd::arithmetic::div_mod::lemma_mod_self_0(n);
        vstd::arithmetic::div_mod::lemma_small_mod((n - 1) as nat, n as nat);
    }
    if s > 0 {
        vstd::arithmetic::div_mod::lemma_mod_add_multiples_vanish(s - 1, n);
        vstd::arithmetic::div_mod::lemma_small_mod((s - 1) as nat, n as nat);
        vstd::arithmetic::div_mod::lemma_small_mod(s as nat, n as nat);
    } else {
        vstd::arithmetic::div_mod::lemma_small_mod((n - 1) as nat, n as nat);
        vstd::arithmetic::div_mod::lemma_mod_self_0(n);
    }
}

/// A hint's key is the one that is shown: pressing the key of the `i`-th hint, of keys that
/// differ, picks the `i`-th tile, as a click on it does.
pub proof fn the_key_that_shows_is_the_key_that_fires(o: Overlay, i: int)
    requires
        o.labels_tiles(),
        !o.closing,
        0 <= i < o.hints.len(),
        i < o.visible().len(),
        forall|a: int, b: int|
            0 <= a < b < o.hints.len() ==> (#[trigger] o.hints[a]).0 != (#[trigger] o.hints[b]).0,
    ensures
        o.hint_pressed(o.hints[i].0).out == Some(o.visible()[i].pick()),
        o.hint_pressed(o.hints[i].0).closing,
{
    hint_found(o.hints, i, 0);
}

proof fn hint_found(v: Seq<HintView>, i: int, k: int)
    requires
        0 <= k <= i < v.len(),
        forall|a: int, b: int|
            0 <= a < b < v.len() ==> (#[trigger] v[a]).0 != (#[trigger] v[b]).0,
    ensures
        hint_at(v, v[i].0, k) == Some(i),
    decreases i - k,
{
    if k < i {
        assert(v[k].0 != v[i].0);
        hint_found(v, i, k + 1);
    }
}

/// The card leaves its letters to the filter field: no key is a hint there.
pub proof fn the_card_has_no_hints(o: Overlay, code: u32)
    requires
        o.view == Layout::Card,
    ensures
        o.hinted(code) is None,
        o.hint_pressed(code) == o,
{
}

/// Tiles that are held back are shown at the latest on a frame that comes the backstop's
/// time after the first one.
pub proof fn tiles_are_not_held_back_for_ever(o: Overlay, first: u64, later: u64)
    requires
        later - first >= REVEAL_BACKSTOP_MICROS,
        o.first_frame is None,
    ensures
        o.backstopped(first).backstopped(later).revealed,
{
}

/// Typing more into the filter field never brings back what the list does not hold: what is
/// shown is on the list.
pub proof fn what_is_shown_is_listed(o: Overlay, i: int)
    requires
        0 <= i < o.visible().len(),
    ensures
        o.sources matches Some(v) && v.contains(o.visible()[i]),
        o.shows(o.visible()[i]),
{
    broadcast use vstd::seq_lib::group_filter_ensures;

    let v = o.sources->0;
    v.lemma_filter_contains_rev(o.shown(), o.visible()[i]);
    assert(o.shown()(o.visible()[i]));
}

/// Which pictures there are of the sources, by key.
pub struct Pictures {
    /// Frames that came through memory.
    pub textures: Table<()>,
    /// Frames that were imported on the GPU. Preferred when a tile is drawn.
    pub native: Table<()>,
    /// Sources whose frames the GPU refused to import. The failure is deterministic, so they
    /// will never get a preview from there: drawing them as loading would be a lie that
    /// never resolves.
    pub failed: Table<()>,
    /// App icons.
    pub icons: Table<()>,
}

/// Sets of keys.
pub type Keys = Map<Seq<char>, ()>;

/// Which pictures there are.
pub struct Shots {
    pub textures: Keys,
    pub native: Keys,
    pub failed: Keys,
    pub icons: Keys,
}

impl View for Pictures {
    type V = Shots;

    open spec fn view(&self) -> Shots {
        Shots {
            textures: self.textures@,
            native: self.native@,
            failed: self.failed@,
            icons: self.icons@,
        }
    }
}

/// How a picture gets on the screen.
#[derive(Clone, Copy, Debug, PartialEq, Eq, Structural)]
pub enum Upload {
    /// There is nothing in it.
    Nothing,
    /// A texture is made for it.
    New,
    /// The texture that is there is updated in place: live frames stream in continuously.
    Update,
}

/// Which picture of a source is drawn.
#[derive(Clone, Copy, Debug, PartialEq, Eq, Structural)]
pub enum Drawn {
    /// The one on the GPU.
    Native,
    /// The one that came through memory.
    Texture,
}

impl Shots {
    /// Which picture of a source is drawn.
    pub open spec fn drawn(self, key: Seq<char>) -> Option<Drawn> {
        if self.native.contains_key(key) {
            Some(Drawn::Native)
        } else if self.textures.contains_key(key) {
            Some(Drawn::Texture)
        } else {
            None
        }
    }
}

impl Pictures {
    pub open spec fn wf(&self) -> bool {
        self.textures.wf() && self.native.wf() && self.failed.wf() && self.icons.wf()
    }

    /// No pictures yet.
    pub fn new() -> (r: Pictures)
        ensures
            r.wf(),
            r@ == (Shots {
                textures: Map::empty(),
                native: Map::empty(),
                failed: Map::empty(),
                icons: Map::empty(),
            }),
    {
        Pictures {
            textures: Table::new(),
            native: Table::new(),
            failed: Table::new(),
            icons: Table::new(),
        }
    }

    /// A frame came through memory.
    pub fn thumb(&mut self, key: &str, w: usize, h: usize) -> (r: Upload)
        requires
            old(self).wf(),
        ensures
            final(self).wf(),
            r == if w == 0 || h == 0 {
                Upload::Nothing
            } else if old(self)@.textures.contains_key(key@) {
                Upload::Update
            } else {
                Upload::New
            },
            final(self)@ == if w == 0 || h == 0 {
                old(self)@
            } else {
                Shots { textures: old(self)@.textures.insert(key@, ()), ..old(self)@ }
            },
    {
        if w == 0 || h == 0 {
            return Upload::Nothing;
        }
        let known = self.textures.contains(key);
        self.textures.insert(String::from_str(key), ());
        if known {
            Upload::Update
        } else {
            Upload::New
        }
    }

    /// The GPU imported a frame, or refused to. Whether the capture is to be asked to go
    /// through memory instead.
    pub fn imported(&mut self, key: &str, ok: bool) -> (r: bool)
        requires
            old(self).wf(),
        ensures
            final(self).wf(),
            r == !ok,
            final(self)@ == if ok {
                Shots {
                    native: old(self)@.native.insert(key@, ()),
                    failed: old(self)@.failed.remove(key@),
                    ..old(self)@
                }
            } else {
                Shots { failed: old(self)@.failed.insert(key@, ()), ..old(self)@ }
            },
    {
        if ok {
            self.native.insert(String::from_str(key), ());
            self.failed.remove(key);
        } else {
            self.failed.insert(String::from_str(key), ());
        }
        !ok
    }

    /// An icon came in. Whether there is anything in it.
    pub fn icon(&mut self, key: &str, w: usize, h: usize) -> (r: bool)
        requires
            old(self).wf(),
        ensures
            final(self).wf(),
            r == (w > 0 && h > 0),
            final(self)@ == if w > 0 && h > 0 {
                Shots { icons: old(self)@.icons.insert(key@, ()), ..old(self)@ }
            } else {
                old(self)@
            },
    {
        if w == 0 || h == 0 {
            return false;
        }
        self.icons.insert(String::from_str(key), ());
        true
    }

    /// A source disappeared: drop its pictures.
    pub fn forget(&mut self, key: &str)
        requires
            old(self).wf(),
        ensures
            final(self).wf(),
            final(self)@ == (Shots {
                textures: old(self)@.textures.remove(key@),
                native: old(self)@.native.remove(key@),
                failed: old(self)@.failed.remove(key@),
                icons: old(self)@.icons.remove(key@),
            }),
    {
        self.textures.remove(key);
        self.native.remove(key);
        self.failed.remove(key);
        self.icons.remove(key);
    }

    /// The drawable picture of a source: the one on the GPU if there is one, else the one
    /// that came through memory.
    pub fn thumb_tex(&self, key: &str) -> (r: Option<Drawn>)
        requires
            self.wf(),
        ensures
            r == self@.drawn(key@),
    {
        if self.native.contains(key) {
            Some(Drawn::Native)
        } else if self.textures.contains(key) {
            Some(Drawn::Texture)
        } else {
            None
        }
    }

    /// Whether this source's preview will never arrive, so the tile should say so instead of
    /// showing a loading state forever.
    pub fn preview_failed(&self, key: &str) -> (r: bool)
        requires
            self.wf(),
        ensures
            r == (self@.failed.contains_key(key@) && self@.drawn(key@) is None),
    {
        self.failed.contains(key) && !self.native.contains(key) && !self.textures.contains(key)
    }

    /// Whether the source has an icon.
    pub fn has_icon(&self, key: &str) -> (r: bool)
        requires
            self.wf(),
        ensures
            r == self@.icons.contains_key(key@),
    {
        self.icons.contains(key)
    }
}

/// What a tile shows in place of a picture.
#[derive(Clone, Copy, Debug, PartialEq, Eq, Structural)]
pub enum Placeholder {
    /// That there will be none.
    Unavailable,
    /// That there is none yet.
    Loading,
    /// The source's own title.
    Title,
}

/// What a tile's preview area shows.
#[derive(Clone, Copy, Debug, PartialEq, Eq, Structural)]
pub enum Preview {
    Picture(Drawn),
    Text(Placeholder),
}

/// What stands for the app on a tile.
#[derive(Clone, Copy, Debug, PartialEq, Eq, Structural)]
pub enum Badge {
    /// The app's icon.
    Icon,
    /// The source's picture.
    Picture(Drawn),
    /// A generic window.
    WindowGlyph,
    /// A generic screen, so that a full-screen window can't be mistaken for one.
    MonitorGlyph,
}

/// How a tile is filled.
#[derive(Clone, Copy, Debug, PartialEq, Eq, Structural)]
pub enum Fill {
    Selected,
    Hovered,
    Plain,
}

/// What a tile of the card or the exposé shows in its preview area. In the card a screen
/// that is not there yet shows its title.
pub fn preview(pictures: &Pictures, s: &Source, view: Layout) -> (r: Preview)
    requires
        pictures.wf(),
    ensures
        r == match pictures@.drawn(s.key@) {
            Some(d) => Preview::Picture(d),
            None => Preview::Text(
                if pictures@.failed.contains_key(s.key@) {
                    Placeholder::Unavailable
                } else if s.is_window || view != Layout::Card {
                    Placeholder::Loading
                } else {
                    Placeholder::Title
                },
            ),
        },
{
    match pictures.thumb_tex(s.key.as_str()) {
        Some(d) => Preview::Picture(d),
        None => if pictures.preview_failed(s.key.as_str()) {
            Preview::Text(Placeholder::Unavailable)
        } else if s.is_window || view != Layout::Card {
            Preview::Text(Placeholder::Loading)
        } else {
            Preview::Text(Placeholder::Title)
        },
    }
}

/// What stands for the app next to a tile's name. In the card a screen has a glyph of its
/// own; elsewhere whatever has no icon gets a window's.
pub fn name_badge(pictures: &Pictures, s: &Source, view: Layout) -> (r: Badge)
    requires
        pictures.wf(),
    ensures
        r == if view == Layout::Card && !s.is_window {
            Badge::MonitorGlyph
        } else if pictures@.icons.contains_key(s.key@) {
            Badge::Icon
        } else {
            Badge::WindowGlyph
        },
{
    if view == Layout::Card && !s.is_window {
        Badge::MonitorGlyph
    } else if pictures.has_icon(s.key.as_str()) {
        Badge::Icon
    } else {
        Badge::WindowGlyph
    }
}

/// What fills a tile of the strip that shows no live preview: the app's icon, else the
/// source's picture, else a glyph for its kind.
pub fn app_icon(pictures: &Pictures, s: &Source) -> (r: Badge)
    requires
        pictures.wf(),
    ensures
        r == if pictures@.icons.contains_key(s.key@) {
            Badge::Icon
        } else {
            match pictures@.drawn(s.key@) {
                Some(d) => Badge::Picture(d),
                None => if s.is_window {
                    Badge::WindowGlyph
                } else {
                    Badge::MonitorGlyph
                },
            }
        },
{
    if pictures.has_icon(s.key.as_str()) {
        Badge::Icon
    } else {
        match pictures.thumb_tex(s.key.as_str()) {
            Some(d) => Badge::Picture(d),
            None => if s.is_window {
                Badge::WindowGlyph
            } else {
                Badge::MonitorGlyph
            },
        }
    }
}

/// How a tile is filled: the selection wins over the pointer.
pub fn fill(selected: bool, hovered: bool) -> (r: Fill)
    ensures
        r == if selected {
            Fill::Selected
        } else if hovered {
            Fill::Hovered
        } else {
            Fill::Plain
        },
{
    if selected {
        Fill::Selected
    } else if hovered {
        Fill::Hovered
    } else {
        Fill::Plain
    }
}

/// A tile's name: the title, and the subtitle where there is one.
pub open spec fn name_of(e: Entry) -> Seq<char> {
    if e.subtitle.len() == 0 {
        e.title
    } else {
        e.title + " — "@ + e.subtitle
    }
}

/// A tile's name: the title, and the subtitle where there is one.
pub fn tile_name(s: &Source) -> (r: String)
    ensures
        r@ == name_of(s@),
{
    let mut out = s.title.clone();
    if chars_of(s.subtitle.as_str()).len() > 0 {
        out.append(" — ");
        out.append(s.subtitle.as_str());
    }
    out
}

/// The card's size in points: what shows exactly the tiles of a fixed grid, or a sensible
/// default. Tiles are 280 wide and 194 high, 10 apart, below a header of 78, with 14 for the
/// scrollbar and a margin of 12.
pub fn card_size(grid: Option<(u32, u32)>) -> (r: (i64, i64))
    ensures
        r == match grid {
            Some((cols, rows)) => (
                (cols * 280 + (cols - 1) * 10 + 14 + 24) as i64,
                (78 + rows * 194 + (rows - 1) * 10 + 24) as i64,
            ),
            None => (1000i64, 760i64),
        },
{
    match grid {
        Some((cols, rows)) => (
            cols as i64 * 280 + (cols as i64 - 1) * 10 + 14 + 24,
            78 + rows as i64 * 194 + (rows as i64 - 1) * 10 + 24,
        ),
        None => (1000, 760),
    }
}

/// The card's columns: as many as were asked for, or as many tiles of the smallest width as
/// fit into `avail` points, and at least one.
pub fn card_columns(grid: Option<(u32, u32)>, avail: u32) -> (r: u32)
    ensures
        r == {
            let wanted = match grid {
                Some((cols, _)) => cols as int,
                None => (avail + 10) / 290,
            };
            if wanted < 1 {
                1
            } else {
                wanted
            }
        },
{
    let wanted: u32 = match grid {
        Some((cols, _)) => cols,
        None => ((avail as u64 + 10) / 290) as u32,
    };
    if wanted < 1 {
        1
    } else {
        wanted
    }
}

/// The room a strip of `n` tiles takes at that icon size.
pub open spec fn strip_width(n: int, icon: int) -> int {
    n * (icon + 24) + (n - 1) * 14 + 44
}

/// The strip's icon size: the largest of 96, 92, … down to 44 points at which one row of `n`
/// tiles fits into `room` points; 44 where none does.
pub open spec fn icon_for(n: int, room: int, icon: int) -> int
    decreases icon,
{
    if icon > 44 && strip_width(n, icon) > room {
        icon_for(n, room, icon - 4)
    } else {
        icon
    }
}

fn strip_room(n: u32, icon: u32) -> (r: u64)
    requires
        n > 0,
        icon <= 96,
    ensures
        r == strip_width(n as int, icon as int),
{
    assert(n * (icon + 24) <= 0xffff_ffff * 120) by (nonlinear_arith)
        requires
            0 <= n <= 0xffff_ffff,
            0 <= icon <= 96,
    ;
    n as u64 * (icon as u64 + 24) + (n as u64 - 1) * 14 + 44
}

/// The strip's icon size: it shrinks until the single row of `n` tiles fits.
pub fn strip_icon(n: u32, room: u32) -> (r: u32)
    requires
        n > 0,
    ensures
        r == icon_for(n as int, room as int, 96),
        44 <= r <= 96,
{
    let mut icon: u32 = 96;
    while icon > 44 && strip_room(n, icon) > room as u64
        invariant
            n > 0,
            44 <= icon <= 96,
            icon % 4 == 0,
            icon_for(n as int, room as int, 96) == icon_for(n as int, room as int, icon as int),
        decreases icon,
    {
        icon = icon - 4;
    }
    icon
}

/// What is on show is what is listed and passes: a shown entry is a listed one, and a listed one
/// is shown unless it is a system window that is not wanted, of a kind the tab leaves out, or
/// does not hold what is typed.
pub proof fn what_passes_is_shown(o: Overlay, e: Entry)
    ensures
        o.visible().contains(e) <==> {
            &&& o.sources matches Some(v) && v.contains(e)
            &&& e.is_system ==> o.show_system
            &&& o.mode == Mode::Windows ==> e.is_window
            &&& o.mode == Mode::Outputs ==> !e.is_window
            &&& lowercase(o.filter).len() == 0 || contains(e.filter, lowercase(o.filter))
        },
{
    broadcast use vstd::seq_lib::group_filter_ensures;

    if let Some(v) = o.sources {
        if o.visible().contains(e) {
            v.lemma_filter_contains_rev(o.shown(), e);
            let i = choose|i: int| 0 <= i < o.visible().len() && o.visible()[i] == e;
            assert(o.shown()(o.visible()[i]));
        }
        if v.contains(e) && o.shows(e) {
            let i = choose|i: int| 0 <= i < v.len() && v[i] == e;
            v.lemma_filter_contains(o.shown(), i);
        }
    }
}

/// The tabs part what there is: no window is among the outputs, nothing but windows is among
/// the windows, and what the first tab shows is on exactly one of the other two.
pub proof fn the_tabs_part_what_there_is(o: Overlay, e: Entry)
    ensures
        ({
            let all = (Overlay { mode: Mode::All, ..o }).visible();
            let windows = (Overlay { mode: Mode::Windows, ..o }).visible();
            let outputs = (Overlay { mode: Mode::Outputs, ..o }).visible();
            &&& windows.contains(e) ==> e.is_window
            &&& outputs.contains(e) ==> !e.is_window
            &&& all.contains(e) <==> windows.contains(e) || outputs.contains(e)
            &&& all.contains(e) && e.is_window ==> windows.contains(e)
            &&& all.contains(e) && !e.is_window ==> outputs.contains(e)
            &&& all.len() == windows.len() + outputs.len()
        }),
{
    let all = Overlay { mode: Mode::All, ..o };
    let windows = Overlay { mode: Mode::Windows, ..o };
    let outputs = Overlay { mode: Mode::Outputs, ..o };
    what_passes_is_shown(all, e);
    what_passes_is_shown(windows, e);
    what_passes_is_shown(outputs, e);
    if let Some(v) = o.sources {
        parted(v, all, windows, outputs);
    }
}

proof fn parted(v: Seq<Entry>, all: Overlay, windows: Overlay, outputs: Overlay)
    requires
        forall|e: Entry| #[trigger]
            all.shown()(e) <==> windows.shown()(e) || outputs.shown()(e),
        forall|e: Entry| #[trigger] windows.shown()(e) ==> !outputs.shown()(e),
    ensures
        v.filter(all.shown()).len() == v.filter(windows.shown()).len() + v.filter(
            outputs.shown(),
        ).len(),
    decreases v.len(),
{
    reveal(Seq::filter);
    if v.len() > 0 {
        parted(v.drop_last(), all, windows, outputs);
        let e = v.last();
        assert(all.shown()(e) <==> windows.shown()(e) || outputs.shown()(e));
        assert(windows.shown()(e) ==> !outputs.shown()(e));
    }
}

/// With nothing typed and system windows wanted, every listed source is shown: all of them on
/// the first tab, the windows and the outputs on theirs.
pub proof fn nothing_typed_leaves_nothing_out(o: Overlay, e: Entry)
    requires
        o.sources matches Some(v) && v.contains(e),
        o.show_system || !e.is_system,
        lowercase(o.filter).len() == 0,
    ensures
        (Overlay { mode: Mode::All, ..o }).visible().contains(e),
        e.is_window ==> (Overlay { mode: Mode::Windows, ..o }).visible().contains(e),
        !e.is_window ==> (Overlay { mode: Mode::Outputs, ..o }).visible().contains(e),
{
    what_passes_is_shown(Overlay { mode: Mode::All, ..o }, e);
    what_passes_is_shown(Overlay { mode: Mode::Windows, ..o }, e);
    what_passes_is_shown(Overlay { mode: Mode::Outputs, ..o }, e);
}

/// Typing more only narrows: with a text that holds the one before, nothing new is shown. And
/// hiding system windows hides nothing else.
pub proof fn typing_more_only_narrows(o: Overlay, more: Seq<char>, e: Entry)
    requires
        contains(lowercase(more), lowercase(o.filter)),
        (Overlay { filter: more, ..o }).visible().contains(e),
        lowercase(more).len() > 0,
    ensures
        o.visible().contains(e),
{
    what_passes_is_shown(o, e);
    what_passes_is_shown(Overlay { filter: more, ..o }, e);
    contains_is_transitive(e.filter, lowercase(more), lowercase(o.filter));
}

/// Tiles stand in the order of the list: what is shown of a list and one more source is what is
/// shown of the list, and the source if it passes.
pub proof fn tiles_stand_in_the_lists_order(o: Overlay, v: Seq<Entry>, e: Entry)
    ensures
        (Overlay { sources: Some(v.push(e)), ..o }).visible() == if (Overlay {
            sources: Some(seq![e]),
            ..o
        }).visible().len() == 1 {
            (Overlay { sources: Some(v), ..o }).visible().push(e)
        } else {
            (Overlay { sources: Some(v), ..o }).visible()
        },
        (Overlay { sources: Some(seq![e]), ..o }).visible().len() <= 1,
        (Overlay { sources: None, ..o }).visible().len() == 0,
{
    reveal(Seq::filter);
    let one = Overlay { sources: Some(seq![e]), ..o };
    let more = Overlay { sources: Some(v.push(e)), ..o };
    let less = Overlay { sources: Some(v), ..o };
    assert(v.push(e).drop_last() =~= v);
    assert(seq![e].drop_last() =~= Seq::<Entry>::empty());
    assert(one.shown() =~= less.shown());
    assert(more.shown() =~= less.shown());
    reveal_with_fuel(Seq::filter, 3);
}

/// Cycling goes to the next tile, from the last to the first; cycling back to the one before,
/// from the first to the last.
pub proof fn cycling_goes_from_tile_to_tile(o: Overlay)
    requires
        o.selected < o.visible().len() <= usize::MAX,
    ensures
        ({
            let (s, n) = (o.selected as int, o.visible().len() as int);
            &&& s + 1 < n ==> o.cycled(true).selected == s + 1
            &&& s + 1 == n ==> o.cycled(true).selected == 0
            &&& s > 0 ==> o.cycled(false).selected == s - 1
            &&& s == 0 ==> o.cycled(false).selected == n - 1
        }),
{
    steps(o.selected as int, o.visible().len() as int);
}

proof fn steps(s: int, n: int)
    requires
        0 <= s < n,
    ensures
        s + 1 < n ==> (s + 1) % n == s + 1,
        s + 1 == n ==> (s + 1) % n == 0,
        s > 0 ==> (s + n - 1) % n == s - 1,
        s == 0 ==> (s + n - 1) % n == n - 1,
{
    if s + 1 < n {
        vstd::arithmetic::div_mod::lemma_small_mod((s + 1) as nat, n as nat);
    } else {
        vstd::arithmetic::div_mod::lemma_mod_self_0(n);
    }
    if s > 0 {
        vstd::arithmetic::div_mod::lemma_mod_add_multiples_vanish(s - 1, n);
        vstd::arithmetic::div_mod::lemma_small_mod((s - 1) as nat, n as nat);
    } else {
        vstd::arithmetic::div_mod::lemma_small_mod((n - 1) as nat, n as nat);
    }
}

/// The arrows move the highlight: right and down on, left and up back, and so does Tab and, with
/// Shift, Tab back, but not on the card, where it leaves the filter field.
pub proof fn arrows_move_the_highlight(o: Overlay, k: FrameInput)
    requires
        o.selected < o.visible().len() <= usize::MAX,
        !k.enter,
    ensures
        ({
            let at = o.keyed(k).selected as int;
            let (s, n) = (o.selected as int, o.visible().len() as int);
            let on = k.right || k.down || (k.tab && !k.shift && o.view != Layout::Card);
            let back = k.left || k.up || (k.tab && k.shift && o.view != Layout::Card);
            &&& on && !back ==> at == (if s + 1 == n {
                0
            } else {
                s + 1
            })
            &&& back && !on ==> at == (if s == 0 {
                n - 1
            } else {
                s - 1
            })
            &&& on == back ==> at == s
            &&& o.keyed(k).out == o.out
            &&& o.keyed(k).closing == (o.closing || k.escape)
        }),
{
    let (s, n) = (o.selected as int, o.visible().len() as int);
    steps(s, n);
    steps((s + 1) % n, n);
    if s + 1 == n {
        steps(0, n);
    }
}

/// Enter picks the tile that is highlighted once the arrows of the same frame have moved it.
pub proof fn enter_picks_the_highlighted_tile(o: Overlay, k: FrameInput)
    requires
        o.selected < o.visible().len() <= usize::MAX,
        k.enter,
    ensures
        ({
            let at = o.keyed(FrameInput { enter: false, ..k }).selected as int;
            &&& 0 <= at < o.visible().len()
            &&& o.keyed(k).out == Some(o.visible()[at].pick())
            &&& o.keyed(k).closing
        }),
{
    let (s, n) = (o.selected as int, o.visible().len() as int);
    steps(s, n);
    steps((s + 1) % n, n);
    if s + 1 == n {
        steps(0, n);
    }
}

/// A release picks the highlighted tile, and closes without a pick where there is none.
pub proof fn a_release_picks_the_highlighted_tile(o: Overlay)
    requires
        !o.closing,
        o.sources is Some,
        !o.pending_initial_select,
    ensures
        o.confirmed().closing,
        o.selected < o.visible().len() ==> o.confirmed().out == Some(
            o.visible()[o.selected as int].pick(),
        ),
        o.selected >= o.visible().len() ==> o.confirmed().out == o.out,
{
}

/// Where nothing had the focus, or everything that is shown is the window that has it, the first
/// tile is highlighted to begin with.
pub proof fn the_first_tile_is_highlighted_to_begin_with(o: Overlay)
    requires
        o.pending_initial_select,
        o.sources is Some,
        o.focused matches Some(w) ==> forall|j: int|
            0 <= j < o.visible().len() ==> (#[trigger] o.visible()[j]).denotes(w),
    ensures
        o.placed().selected == 0,
        !o.placed().pending_initial_select,
{
    if let Some(w) = o.focused {
        first_other_is_first(o.visible(), w, 0);
    }
}

/// A first list with one tile is picked at once, where that was asked for; a list with more, and
/// any later list, never.
pub proof fn only_a_single_first_tile_is_picked(o: Overlay, v: Seq<Entry>)
    requires
        !o.closing,
    ensures
        ({
            let l = o.listed(v);
            let tiles = (Overlay { sources: Some(v), ..o }).visible();
            &&& l.sources == Some(v)
            &&& l.closing ==> o.auto_select && o.sources is None && tiles.len() == 1 && l.out
                == Some(tiles[0].pick())
            &&& !l.closing ==> l.out == o.out
            &&& o.auto_select && o.sources is None && tiles.len() == 1 ==> l.closing
        }),
{
}

/// What is highlighted is a tile: the selected one, or the last where there are fewer.
pub proof fn the_highlight_is_on_a_tile(a: App, r: Option<usize>)
    requires
        call_ensures(App::highlighted, (&a,), r),
        a@.visible().len() <= usize::MAX,
    ensures
        r is None <==> a@.visible().len() == 0,
        r matches Some(i) ==> i < a@.visible().len() && i <= a@.selected,
        r matches Some(i) ==> i == a@.selected || i == a@.visible().len() - 1,
{
}

/// Tiles that are held back stay so until they are shown or the backstop's time has gone by.
pub proof fn tiles_are_held_back_for_a_while(o: Overlay, first: u64, later: u64)
    requires
        !o.revealed,
        o.first_frame is None,
        first <= later < first + 150_000,
    ensures
        !o.backstopped(first).backstopped(later).revealed,
        o.backstopped(first).backstopped(later).first_frame == Some(first),
{
}

/// Another column or row makes the card as much larger as a tile and the gap beside it.
pub proof fn the_card_grows_by_tiles(
    cols: u32,
    rows: u32,
    a: (i64, i64),
    wider: (i64, i64),
    higher: (i64, i64),
)
    requires
        cols < u32::MAX,
        rows < u32::MAX,
        call_ensures(card_size, (Some((cols, rows)),), a),
        call_ensures(card_size, (Some(((cols + 1) as u32, rows)),), wider),
        call_ensures(card_size, (Some((cols, (rows + 1) as u32)),), higher),
    ensures
        wider.0 - a.0 == 280 + 10,
        wider.1 == a.1,
        higher.1 - a.1 == 194 + 10,
        higher.0 == a.0,
{
}

/// A card whose columns were not asked for has as many as there is room for, and at least one.
pub proof fn as_many_columns_as_fit(avail: u32, r: u32)
    requires
        call_ensures(card_columns, (None, avail), r),
    ensures
        r >= 1,
        r * 280 + (r - 1) * 10 <= avail || r == 1,
        (r + 1) * 280 + r * 10 > avail,
{
}

/// A card whose columns were asked for has them.
pub proof fn as_many_columns_as_asked_for(cols: u32, rows: u32, avail: u32, r: u32)
    requires
        call_ensures(card_columns, (Some((cols, rows)), avail), r),
    ensures
        cols >= 1 ==> r == cols,
        cols == 0 ==> r == 1,
{
}

/// The icons of the strip are the largest, by steps of four between 44 and 96, with which it
/// fits.
pub proof fn icons_are_as_large_as_fits(n: u32, room: u32, r: u32)
    requires
        n > 0,
        call_ensures(strip_icon, (n, room), r),
    ensures
        44 <= r <= 96,
        r % 4 == 0,
        r > 44 ==> n * (r + 24) + (n - 1) * 14 + 44 <= room,
        r < 96 ==> n * (r + 4 + 24) + (n - 1) * 14 + 44 > room,
{
    largest_icon(n as int, room as int, 96);
}

proof fn largest_icon(n: int, room: int, icon: int)
    requires
        n > 0,
        44 <= icon <= 96,
        icon % 4 == 0,
    ensures
        ({
            let r = icon_for(n, room, icon);
            &&& 44 <= r <= icon
            &&& r % 4 == 0
            &&& r > 44 ==> strip_width(n, r) <= room
            &&& r < icon ==> strip_width(n, r + 4) > room
        }),
    decreases icon,
{
    if icon > 44 && strip_width(n, icon) > room {
        largest_icon(n, room, icon - 4);
    }
}

/// A thumbnail that arrived is drawn, an imported one before it; what is forgotten is not; and
/// nothing of this touches another source.
pub proof fn what_arrived_is_drawn(
    p: &mut Pictures,
    key: &str,
    w: usize,
    h: usize,
    u: Upload,
    other: Seq<char>,
)
    requires
        call_ensures(Pictures::thumb, (p, key, w, h), u),
        w > 0,
        h > 0,
        other != key@,
    ensures
        u == (if old(p)@.textures.contains_key(key@) {
            Upload::Update
        } else {
            Upload::New
        }),
        final(p)@.drawn(key@) == (if old(p)@.native.contains_key(key@) {
            Some(Drawn::Native)
        } else {
            Some(Drawn::Texture)
        }),
        final(p)@.drawn(other) == old(p)@.drawn(other),
        final(p)@.icons == old(p)@.icons,
{
}

/// An import that went well is what is drawn and is no failure any more; one that failed takes
/// nothing away that was drawn before.
pub proof fn what_was_imported_is_drawn(
    p: &mut Pictures,
    key: &str,
    ok: bool,
    again: bool,
    other: Seq<char>,
)
    requires
        call_ensures(Pictures::imported, (p, key, ok), again),
        other != key@,
    ensures
        again == !ok,
        ok ==> final(p)@.drawn(key@) == Some(Drawn::Native) && !final(p)@.failed.contains_key(key@),
        !ok ==> final(p)@.drawn(key@) == old(p)@.drawn(key@) && final(p)@.failed.contains_key(key@),
        final(p)@.drawn(other) == old(p)@.drawn(other),
        final(p)@.failed.contains_key(other) == old(p)@.failed.contains_key(other),
{
}

/// Nothing is left of a source that is forgotten, and everything of the others.
pub proof fn what_is_forgotten_is_gone(p: &mut Pictures, key: &str, other: Seq<char>)
    requires
        call_ensures(Pictures::forget, (p, key), ()),
        other != key@,
    ensures
        final(p)@.drawn(key@) is None,
        !final(p)@.failed.contains_key(key@),
        !final(p)@.icons.contains_key(key@),
        final(p)@.drawn(other) == old(p)@.drawn(other),
        final(p)@.failed.contains_key(other) == old(p)@.failed.contains_key(other),
        final(p)@.icons.contains_key(other) == old(p)@.icons.contains_key(other),
{
}

/// A tile shows a picture wherever there is one, the imported one first; without, it says that
/// there will be none only where getting one failed.
pub proof fn a_picture_is_shown_where_there_is_one(p: Pictures, s: Source, view: Layout, r: Preview)
    requires
        call_ensures(preview, (&p, &s, view), r),
    ensures
        p.native@.contains_key(s.key@) ==> r == Preview::Picture(Drawn::Native),
        !p.native@.contains_key(s.key@) && p.textures@.contains_key(s.key@) ==> r
            == Preview::Picture(Drawn::Texture),
        !p.native@.contains_key(s.key@) && !p.textures@.contains_key(s.key@) ==> r is Text && (r
            == Preview::Text(Placeholder::Unavailable) <==> p.failed@.contains_key(s.key@)),
        r == Preview::Text(Placeholder::Title) ==> !s.is_window && view == Layout::Card,
{
}

/// A source's mark is its application's icon where there is one, then its picture, then the sign
/// of its kind.
pub proof fn a_source_is_marked_by_its_icon(p: Pictures, s: Source, r: Badge)
    requires
        call_ensures(app_icon, (&p, &s), r),
    ensures
        r is Icon <==> p.icons@.contains_key(s.key@),
        r is Picture <==> !p.icons@.contains_key(s.key@) && (p.native@.contains_key(s.key@)
            || p.textures@.contains_key(s.key@)),
        r is WindowGlyph ==> s.is_window,
        r is MonitorGlyph ==> !s.is_window,
{
}

/// A name beside a tile has its icon before it; on the card an output has the monitor's sign.
pub proof fn a_name_has_its_icon(p: Pictures, s: Source, view: Layout, r: Badge)
    requires
        call_ensures(name_badge, (&p, &s, view), r),
    ensures
        r is MonitorGlyph <==> view == Layout::Card && !s.is_window,
        r is Icon ==> p.icons@.contains_key(s.key@),
        r is WindowGlyph ==> !p.icons@.contains_key(s.key@),
        r !is Picture,
{
}

/// The selected tile looks selected under the pointer too.
pub proof fn selection_shows_over_the_pointer(selected: bool, hovered: bool, r: Fill)
    requires
        call_ensures(fill, (selected, hovered), r),
    ensures
        r is Selected <==> selected,
        r is Hovered <==> !selected && hovered,
        r is Plain <==> !selected && !hovered,
{
}

/// Live pictures are drawn of every tile, of the highlighted one alone, or of none.
pub proof fn live_pictures_are_drawn_where_asked(
    live: Live,
    i: usize,
    j: usize,
    selected: usize,
    a: bool,
    b: bool,
)
    requires
        call_ensures(Live::shows, (live, i, selected), a),
        call_ensures(Live::shows, (live, j, selected), b),
        i == selected,
        j != selected,
    ensures
        a <==> live != Live::Off,
        b <==> live == Live::All,
{
}

/// Another tab, another filter or the system's windows coming and going put the highlight on the
/// first tile; the same ones again leave it.
pub proof fn what_is_shown_anew_begins_at_the_first_tile(
    a: &mut App,
    b: &mut App,
    c: &mut App,
    mode: Mode,
    show: bool,
    filter: String,
)
    requires
        call_ensures(App::set_mode, (a, mode), ()),
        call_ensures(App::set_show_system, (b, show), ()),
        call_ensures(App::set_filter, (c, filter), ()),
    ensures
        final(a)@.mode == mode,
        final(a)@.selected == (if mode == old(a)@.mode {
            old(a)@.selected
        } else {
            0
        }),
        final(b)@.show_system == show,
        final(b)@.selected == (if show == old(b)@.show_system {
            old(b)@.selected
        } else {
            0
        }),
        final(c)@.filter == filter@,
        final(c)@.selected == 0,
        final(c)@.sources == old(c)@.sources,
{
}

/// The strip and the grid label their tiles where a row of keys was chosen, and the tile's label
/// is that of the key which picks it.
pub proof fn a_tiles_label_is_its_keys(a: App, i: usize, r: Option<&str>)
    requires
        call_ensures(App::hint_label, (&a, i), r),
    ensures
        a@.hint_row is Some && a@.view != Layout::Card && i < a@.hints.len() ==> (r matches Some(s)
            && s@ == a@.hints[i as int].1),
        a@.hint_row is None || a@.view == Layout::Card || i >= a@.hints.len() ==> r is None,
{
}

/// The keys of the chosen row become the hints, on the strip and on the grid.
pub proof fn the_keymap_gives_the_hints(a: &mut App, k: Keymap)
    requires
        call_ensures(App::set_keymap, (a, &k), ()),
        old(a)@.hint_row is Some,
        old(a)@.view != Layout::Card,
    ensures
        final(a)@.hints == k.offers(old(a)@.hint_row->0.codes()),
        final(a)@.selected == old(a)@.selected,
        final(a)@.sources == old(a)@.sources,
{
}

/// Tiles are painted while the picker is open and they are shown, and not on the frame that
/// closes it.
pub proof fn shown_tiles_are_painted(a: &mut App, k: FrameInput, r: bool)
    requires
        call_ensures(App::run_ui, (a, &k), r),
        !old(a)@.pending_initial_select,
        !old(a)@.pending_confirm,
    ensures
        old(a)@.closing ==> !r && final(a)@ == old(a)@,
        !old(a)@.closing && old(a)@.revealed ==> r,
        !old(a)@.closing && !old(a)@.revealed && old(a)@.first_frame is None ==> !r,
{
}

/// Arming has the first tile chosen anew, once, and shows no choice before that.
pub proof fn arming_chooses_the_first_tile_anew(a: &mut App)
    requires
        call_ensures(App::arm, (a,), ()),
    ensures
        final(a)@.armed,
        !old(a)@.armed ==> final(a)@.pending_initial_select,
        old(a)@.armed ==> final(a)@ == old(a)@,
        final(a)@.selected == old(a)@.selected,
        final(a)@.closing == old(a)@.closing,
{
}

/// A tile's name begins with the source's title and ends with what stands under it.
pub proof fn a_tiles_name_begins_with_its_title(s: Source, r: String)
    requires
        call_ensures(tile_name, (&s,), r),
    ensures
        s.subtitle@.len() == 0 ==> r@ == s.title@,
        s.subtitle@.len() > 0 ==> {
            let (a, b) = (s.title@.len() as int, s.subtitle@.len() as int);
            &&& r@.len() == a + 3 + b
            &&& r@.take(a) == s.title@
            &&& r@.skip(a + 3) == s.subtitle@
        },
{
    if s.subtitle@.len() > 0 {
        reveal_strlit(" — ");
        let (a, b) = (s.title@.len() as int, s.subtitle@.len() as int);
        assert(r@.take(a) =~= s.title@);
        assert(r@.skip(a + 3) =~= s.subtitle@);
    }
}

} // verus!
