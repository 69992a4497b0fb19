//! The sources a picker offers: which windows, under what names, in what order.

use crate::capture::WindowFilter;
use crate::order::{chars_before, goes_before, sort_positions, text_before, text_order, SortKey};
use crate::table::{contents_are_the_entries, Table};
use crate::text::{
    chars_of, contains, decimal, eq_ignore_ascii_case, join, join_strings, lowercase,
    lowercase_chars, push_decimal, same, to_lowercase, views,
};
use crate::wl::{count_named, Names, Output, Toplevel, WindowIdentity};
use std::cmp::Ordering;
use vstd::prelude::*;
use vstd::string::*;

verus! {

/// A window as any compositor can be asked for it: its names, and its ordinal among the
/// windows that share them.
pub struct Who {
    pub app_id: Seq<char>,
    pub title: Seq<char>,
    pub dup_index: usize,
}

impl View for WindowIdentity {
    type V = Who;

    open spec fn view(&self) -> Who {
        Who { app_id: self.app_id@, title: self.title@, dup_index: self.dup_index }
    }
}

/// The picked source, carrying the full identity so the front-end can act on it: print
/// `token` (portal) or focus it. Focusing needs both keys: the `identifier` by which some
/// compositors address a window, and the `app_id`, `title` and `dup_index` that others are
/// asked by. See [`Selection::identity`].
pub struct Selection {
    /// The portal's line: `Window: <id>` or `Monitor: <name>`.
    pub token: String,
    /// Whether it is a window; a screen otherwise.
    pub is_window: bool,
    /// The window's identifier; empty for outputs.
    pub identifier: String,
    /// The window's application id.
    pub app_id: String,
    /// The window's title.
    pub title: String,
    /// The output's name; empty for windows.
    pub output: String,
    /// Ordinal among windows sharing this (app id, title), in creation order.
    pub dup_index: usize,
}

/// What was picked.
pub struct Picked {
    pub token: Seq<char>,
    pub is_window: bool,
    pub identifier: Seq<char>,
    pub app_id: Seq<char>,
    pub title: Seq<char>,
    pub output: Seq<char>,
    pub dup_index: usize,
}

impl View for Selection {
    type V = Picked;

    open spec fn view(&self) -> Picked {
        Picked {
            token: self.token@,
            is_window: self.is_window,
            identifier: self.identifier@,
            app_id: self.app_id@,
            title: self.title@,
            output: self.output@,
            dup_index: self.dup_index,
        }
    }
}

impl Clone for Selection {
    fn clone(&self) -> (r: Self)
        ensures
            r == *self,
    {
        Selection {
            token: self.token.clone(),
            is_window: self.is_window,
            identifier: self.identifier.clone(),
            app_id: self.app_id.clone(),
            title: self.title.clone(),
            output: self.output.clone(),
            dup_index: self.dup_index,
        }
    }
}

impl Picked {
    /// The window that was picked.
    pub open spec fn who(self) -> Who {
        Who { app_id: self.app_id, title: self.title, dup_index: self.dup_index }
    }
}

impl Selection {
    /// This window in the terms by which any compositor is asked for one.
    pub fn identity(&self) -> (r: WindowIdentity)
        ensures
            r@ == self@.who(),
    {
        WindowIdentity {
            app_id: self.app_id.clone(),
            title: self.title.clone(),
            dup_index: self.dup_index,
        }
    }
}

/// One pickable source, as shown in the grid.
pub struct Source {
    /// Texture key: the window's identifier, or `out:<name>`.
    pub key: String,
    /// What is printed when it is picked.
    pub token: String,
    pub title: String,
    pub subtitle: String,
    /// What the filter field is matched against.
    pub filter: String,
    pub is_window: bool,
    /// A window with an empty app id, hidden unless asked for.
    pub is_system: bool,
    /// The window's application id.
    pub app_id: String,
    /// The window's title.
    pub win_title: String,
    /// The output's name, kept apart from the localised `title`.
    pub output: String,
    /// Ordinal among windows sharing this (app id, title), in creation order.
    pub dup_index: usize,
}

/// A source's texts and marks.
pub struct Entry {
    pub key: Seq<char>,
    pub token: Seq<char>,
    pub title: Seq<char>,
    pub subtitle: Seq<char>,
    pub filter: Seq<char>,
    pub is_window: bool,
    pub is_system: bool,
    pub app_id: Seq<char>,
    pub win_title: Seq<char>,
    pub output: Seq<char>,
    pub dup_index: usize,
}

impl View for Source {
    type V = Entry;

    open spec fn view(&self) -> Entry {
        Entry {
            key: self.key@,
            token: self.token@,
            title: self.title@,
            subtitle: self.subtitle@,
            filter: self.filter@,
            is_window: self.is_window,
            is_system: self.is_system,
            app_id: self.app_id@,
            win_title: self.win_title@,
            output: self.output@,
            dup_index: self.dup_index,
        }
    }
}

impl Clone for Source {
    fn clone(&self) -> (r: Self)
        ensures
            r == *self,
    {
        Source {
            key: self.key.clone(),
            token: self.token.clone(),
            title: self.title.clone(),
            subtitle: self.subtitle.clone(),
            filter: self.filter.clone(),
            is_window: self.is_window,
            is_system: self.is_system,
            app_id: self.app_id.clone(),
            win_title: self.win_title.clone(),
            output: self.output.clone(),
            dup_index: self.dup_index,
        }
    }
}

impl Entry {
    /// Whether the entry is that window. Windows are matched the way they are activated, by
    /// app id, title and creation-order index.
    pub open spec fn denotes(self, w: Who) -> bool {
        self.is_window && self.app_id == w.app_id && self.win_title == w.title && self.dup_index
            == w.dup_index
    }

    /// What is handed back when the entry is picked.
    pub open spec fn pick(self) -> Picked {
        Picked {
            token: self.token,
            is_window: self.is_window,
            identifier: if self.is_window {
                self.key
            } else {
                Seq::empty()
            },
            app_id: self.app_id,
            title: self.win_title,
            output: self.output,
            dup_index: self.dup_index,
        }
    }
}

impl Source {
    /// Whether this source is the window `w` denotes. Only a window that no protocol names
    /// matches nothing.
    pub fn is(&self, w: &WindowIdentity) -> (r: bool)
        ensures
            r == self@.denotes(w@),
    {
        self.is_window && same(self.app_id.as_str(), w.app_id.as_str()) && same(
            self.win_title.as_str(),
            w.title.as_str(),
        ) && self.dup_index == w.dup_index
    }

    /// The identity to hand back when this source is picked.
    pub fn selection(&self) -> (r: Selection)
        ensures
            r@ == self@.pick(),
    {
        let identifier = if self.is_window {
            self.key.clone()
        } else {
            String::new()
        };
        let r = Selection {
            token: self.token.clone(),
            is_window: self.is_window,
            identifier,
            app_id: self.app_id.clone(),
            title: self.win_title.clone(),
            output: self.output.clone(),
            dup_index: self.dup_index,
        };
        assert(r@.identifier =~= self@.pick().identifier);
        r
    }
}

/// A window that is picked is asked for by names that denote it.
pub proof fn a_pick_denotes_its_source(s: Entry)
    requires
        s.is_window,
    ensures
        s.denotes(s.pick().who()),
        s.pick().identifier == s.key,
{
}

/// The grid entry for an output, under the label it is shown by.
pub open spec fn output_entry(name: Seq<char>, label: Seq<char>) -> Entry {
    Entry {
        key: "out:"@ + name,
        token: "Monitor: "@ + name,
        title: label,
        subtitle: Seq::empty(),
        filter: lowercase(label + " "@ + name),
        is_window: false,
        is_system: false,
        app_id: Seq::empty(),
        win_title: Seq::empty(),
        output: name,
        dup_index: 0,
    }
}

/// The grid entry for a window.
pub open spec fn window_entry(w: Toplevel, dup_index: usize) -> Entry {
    let is_system = w.app_id@.len() == 0;
    Entry {
        key: w.identifier@,
        token: "Window: "@ + w.identifier@,
        title: if is_system {
            w.title@
        } else {
            w.app_id@
        },
        subtitle: if is_system {
            Seq::empty()
        } else {
            w.title@
        },
        filter: lowercase(w.app_id@ + " "@ + w.title@),
        is_window: true,
        is_system,
        app_id: w.app_id@,
        win_title: w.title@,
        output: Seq::empty(),
        dup_index,
    }
}

/// The key of an output's entry.
pub fn output_key(name: &str) -> (r: String)
    ensures
        r@ == "out:"@ + name@,
{
    let mut key = String::from_str("out:");
    key.append(name);
    key
}

/// Build the grid entry for an output. `label` is what it is shown as.
pub fn output_source(o: &Output, label: &str) -> (r: Source)
    ensures
        r@ == output_entry(o.name@, label@),
{
    let mut token = String::from_str("Monitor: ");
    token.append(o.name.as_str());
    let mut both = String::from_str(label);
    both.append(" ");
    both.append(o.name.as_str());
    let r = Source {
        key: output_key(o.name.as_str()),
        token,
        title: String::from_str(label),
        subtitle: String::new(),
        filter: to_lowercase(both.as_str()),
        is_window: false,
        is_system: false,
        app_id: String::new(),
        win_title: String::new(),
        output: o.name.clone(),
        dup_index: 0,
    };
    assert(r@.subtitle =~= Seq::empty());
    assert(r@.app_id =~= Seq::empty());
    assert(r@.win_title =~= Seq::empty());
    r
}

/// Build the grid entry for a window. `dup_index` is its ordinal among windows with the same
/// (app id, title), used to disambiguate identical windows.
pub fn window_source(w: &Toplevel, dup_index: usize) -> (r: Source)
    ensures
        r@ == window_entry(*w, dup_index),
{
    let is_system = chars_of(w.app_id.as_str()).len() == 0;
    let (title, subtitle) = if is_system {
        (w.title.clone(), String::new())
    } else {
        (w.app_id.clone(), w.title.clone())
    };
    let mut token = String::from_str("Window: ");
    token.append(w.identifier.as_str());
    let mut both = w.app_id.clone();
    both.append(" ");
    both.append(w.title.as_str());
    let r = Source {
        key: w.identifier.clone(),
        token,
        title,
        subtitle,
        filter: to_lowercase(both.as_str()),
        is_window: true,
        is_system,
        app_id: w.app_id.clone(),
        win_title: w.title.clone(),
        output: String::new(),
        dup_index,
    };
    assert(r@.output =~= Seq::empty());
    assert(is_system ==> r@.subtitle =~= Seq::empty());
    r
}

/// A window as the command-line filter sees it.
#[derive(Clone, Copy)]
pub struct Candidate<'a> {
    /// The window's application id.
    pub app_id: &'a str,
    /// The window title.
    pub title: &'a str,
    /// The window's identifier, which is how a compositor names the process behind it.
    pub identifier: &'a str,
}

/// A window's application id, title and identifier.
pub struct Window {
    pub app_id: Seq<char>,
    pub title: Seq<char>,
    pub identifier: Seq<char>,
}

impl<'a> View for Candidate<'a> {
    type V = Window;

    open spec fn view(&self) -> Window {
        Window { app_id: self.app_id@, title: self.title@, identifier: self.identifier@ }
    }
}

/// A listed window as the filter sees it.
pub open spec fn window_of(w: Toplevel) -> Window {
    Window { app_id: w.app_id@, title: w.title@, identifier: w.identifier@ }
}

/// The candidates as the filter sees them.
pub open spec fn windows_of(windows: Seq<Candidate<'_>>) -> Seq<Window> {
    Seq::new(windows.len(), |i: int| windows[i]@)
}

impl<'a> Candidate<'a> {
    /// The candidate a window is.
    pub fn from(w: &'a Toplevel) -> (r: Candidate<'a>)
        ensures
            r@ == window_of(*w),
    {
        Candidate {
            app_id: w.app_id.as_str(),
            title: w.title.as_str(),
            identifier: w.identifier.as_str(),
        }
    }
}

/// Which windows a run offers at all, as narrowed on the command line. Distinct from the
/// overlay's own filter field, which only hides tiles that are already captured: this one is
/// applied before a capture session is opened, so an excluded window costs nothing.
///
/// Empty admits every window. A criterion given several times admits a window matching any
/// of its values; criteria of different kinds must all be satisfied.
pub struct WindowFilters {
    /// Application ids, compared exactly and case-insensitively.
    pub app_ids: Vec<String>,
    /// Title substrings, compared case-insensitively.
    pub titles: Vec<String>,
    /// Process ids, compared exactly. A process usually owns several windows and every one
    /// of them passes.
    pub pids: Vec<u32>,
    /// What the compositor last said about the windows on screen: each one's process by
    /// identifier, `None` for a window it covered but named no process for. Absent means
    /// "never asked about": a window the compositor cannot name is not asked about twice.
    pub processes: Table<Option<u32>>,
    /// The windows the run is narrowed to by what the compositor keeps aside, if it is.
    pub identifiers: Option<Filter>,
}

/// Windows by identifier: only those listed, or all but those.
pub enum Filter {
    Only(Vec<String>),
    Except(Vec<String>),
}

impl Filter {
    /// Whether a window gets through.
    pub open spec fn lets(&self, identifier: Seq<char>) -> bool {
        match self {
            Filter::Only(ids) => views(ids@).contains(identifier),
            Filter::Except(ids) => !views(ids@).contains(identifier),
        }
    }

    /// Just those windows.
    pub fn only(ids: Vec<String>) -> (r: Filter)
        ensures
            r == Filter::Only(ids),
    {
        Filter::Only(ids)
    }

    /// All but those windows.
    pub fn except(ids: Vec<String>) -> (r: Filter)
        ensures
            r == Filter::Except(ids),
    {
        Filter::Except(ids)
    }

    /// Whether a window gets through.
    pub fn admits(&self, identifier: &str) -> (r: bool)
        ensures
            r == self.lets(identifier@),
    {
        match self {
            Filter::Only(ids) => lists(ids, identifier),
            Filter::Except(ids) => !lists(ids, identifier),
        }
    }
}

/// Whether a text is on a list.
pub fn lists(v: &Vec<String>, s: &str) -> (r: bool)
    ensures
        r == views(v@).contains(s@),
{
    for i in 0..v.len()
        invariant
            forall|j: int| 0 <= j < i ==> views(v@)[j] != s@,
    {
        if same(v[i].as_str(), s) {
            assert(views(v@)[i as int] == s@);
            return true;
        }
    }
    false
}

/// Whether the identifiers let the window through.
pub open spec fn identifier_ok(identifiers: Option<Filter>, w: Window) -> bool {
    match identifiers {
        Some(f) => f.lets(w.identifier),
        None => true,
    }
}

impl Default for WindowFilters {
    fn default() -> (r: Self)
        ensures
            r.wf(),
            r.app_ids@.len() == 0,
            r.titles@.len() == 0,
            r.pids@.len() == 0,
            r.processes@ == Map::<Seq<char>, Option<u32>>::empty(),
            r.identifiers is None,
    {
        WindowFilters {
            app_ids: Vec::new(),
            titles: Vec::new(),
            pids: Vec::new(),
            processes: Table::new(),
            identifiers: None,
        }
    }
}

/// Whether one of the application ids selects the window.
pub open spec fn app_id_ok(app_ids: Seq<String>, w: Window) -> bool {
    app_ids.len() == 0 || exists|i: int|
        0 <= i < app_ids.len() && eq_ignore_ascii_case(
            w.app_id,
            (#[trigger] app_ids[i])@,
        )
}

/// Whether one of the titles selects the window.
pub open spec fn title_ok(titles: Seq<String>, w: Window) -> bool {
    titles.len() == 0 || exists|i: int|
        0 <= i < titles.len() && contains(
            lowercase(w.title),
            lowercase((#[trigger] titles[i])@),
        )
}

/// Whether the window's process is known and one of those asked for.
pub open spec fn pid_ok(
    pids: Seq<u32>,
    processes: Map<Seq<char>, Option<u32>>,
    w: Window,
) -> bool {
    pids.len() == 0 || (processes.contains_key(w.identifier) && match processes[w.identifier] {
        Some(pid) => pids.contains(pid),
        None => false,
    })
}

/// The process of a window in a compositor's answer: of the first entry that names it.
pub open spec fn process_in(answer: Seq<(String, u32)>, identifier: Seq<char>, k: int) -> Option<
    u32,
>
    decreases answer.len() - k,
{
    if k < 0 || k >= answer.len() {
        None
    } else if answer[k].0@ == identifier {
        Some(answer[k].1)
    } else {
        process_in(answer, identifier, k + 1)
    }
}

/// The process of a window in a compositor's answer.
pub fn process_of(answer: &Vec<(String, u32)>, identifier: &str) -> (r: Option<u32>)
    ensures
        r == process_in(answer@, identifier@, 0),
{
    for i in 0..answer.len()
        invariant
            process_in(answer@, identifier@, 0) == process_in(answer@, identifier@, i as int),
    {
        if same(answer[i].0.as_str(), identifier) {
            return Some(answer[i].1);
        }
    }
    None
}

/// What is known of the processes once the answer was taken in for the first `n` windows.
pub open spec fn learned(
    known: Map<Seq<char>, Option<u32>>,
    toplevels: Seq<Toplevel>,
    answer: Seq<(String, u32)>,
    n: int,
) -> Map<Seq<char>, Option<u32>>
    decreases n,
{
    if n <= 0 {
        known
    } else {
        learned(known, toplevels, answer, n - 1).insert(
            toplevels[n - 1].identifier@,
            process_in(answer, toplevels[n - 1].identifier@, 0),
        )
    }
}

/// A flag with its value, as it is typed.
pub open spec fn flags(flag: Seq<char>, values: Seq<String>) -> Seq<Seq<char>> {
    Seq::new(values.len(), |i: int| flag + values[i]@)
}

/// A flag with its numbers, as it is typed.
pub open spec fn number_flags(flag: Seq<char>, values: Seq<u32>) -> Seq<Seq<char>> {
    Seq::new(values.len(), |i: int| flag + decimal(values[i] as nat))
}

fn push_flags(out: &mut Vec<String>, flag: &str, values: &Vec<String>)
    ensures
        views(final(out)@) == views(old(out)@) + flags(flag@, values@),
{
    let ghost start = out@;
    let ghost all = flags(flag@, values@);
    assert(views(start) =~= views(start) + all.take(0));
    for i in 0..values.len()
        invariant
            all == flags(flag@, values@),
            views(out@) == views(start) + all.take(i as int),
    {
        let mut s = String::from_str(flag);
        s.append(values[i].as_str());
        let ghost before = out@;
        assert(s@ == all[i as int]);
        out.push(s);
        assert(views(out@) =~= views(before).push(s@));
        assert(views(start) + all.take(i + 1) =~= (views(start) + all.take(i as int)).push(s@));
    }
    assert(all.take(values@.len() as int) =~= all);
}

fn push_number_flags(out: &mut Vec<String>, flag: &str, values: &Vec<u32>)
    ensures
        views(final(out)@) == views(old(out)@) + number_flags(flag@, values@),
{
    let ghost start = out@;
    let ghost all = number_flags(flag@, values@);
    assert(views(start) =~= views(start) + all.take(0));
    for i in 0..values.len()
        invariant
            all == number_flags(flag@, values@),
            views(out@) == views(start) + all.take(i as int),
    {
        let mut s = String::from_str(flag);
        push_decimal(&mut s, values[i] as u64);
        let ghost before = out@;
        assert(s@ == all[i as int]);
        out.push(s);
        assert(views(out@) =~= views(before).push(s@));
        assert(views(start) + all.take(i + 1) =~= (views(start) + all.take(i as int)).push(s@));
    }
    assert(all.take(values@.len() as int) =~= all);
}

impl WindowFilters {
    /// The process table is one.
    pub open spec fn wf(&self) -> bool {
        self.processes.wf()
    }

    /// The filters a command line asked for, before any window is known.
    pub fn new(app_ids: Vec<String>, titles: Vec<String>, pids: Vec<u32>) -> (r: WindowFilters)
        ensures
            r.wf(),
            r.app_ids == app_ids,
            r.titles == titles,
            r.pids == pids,
            r.processes@ == Map::<Seq<char>, Option<u32>>::empty(),
            r.identifiers is None,
    {
        WindowFilters { app_ids, titles, pids, processes: Table::new(), identifiers: None }
    }

    /// Whether nothing was asked for, in which case every window is offered.
    pub fn is_empty(&self) -> (r: bool)
        ensures
            r == (self.app_ids@.len() == 0 && self.titles@.len() == 0 && self.pids@.len() == 0
                && self.identifiers is None),
    {
        self.app_ids.len() == 0 && self.titles.len() == 0 && self.pids.len() == 0
            && self.identifiers.is_none()
    }

    /// Narrow the run to what the compositor keeps aside, or to the rest.
    pub fn set_identifiers(&mut self, f: Filter)
        ensures
            *final(self) == (WindowFilters { identifiers: Some(f), ..*old(self) }),
    {
        self.identifiers = Some(f);
    }

    /// Whether this run has to know the process behind each window.
    pub fn needs_pids(&self) -> (r: bool)
        ensures
            r == (self.pids@.len() > 0),
    {
        self.pids.len() > 0
    }

    /// Whether there is a window to ask the compositor about.
    pub open spec fn asks(&self, toplevels: Seq<Toplevel>) -> bool {
        self.pids@.len() > 0 && exists|i: int|
            0 <= i < toplevels.len() && !self.processes@.contains_key(
                (#[trigger] toplevels[i]).identifier@,
            )
    }

    /// Whether there is a window to ask the compositor about: the flags that do not need a
    /// process do not pay for one, and those that do ask only when a window shows up that
    /// was never asked about.
    pub fn must_ask(&self, toplevels: &[Toplevel]) -> (r: bool)
        requires
            self.wf(),
        ensures
            r == self.asks(toplevels@),
    {
        if !self.needs_pids() {
            return false;
        }
        for i in 0..toplevels.len()
            invariant
                self.wf(),
                self.pids@.len() > 0,
                forall|j: int|
                    0 <= j < i ==> self.processes@.contains_key(
                        (#[trigger] toplevels@[j]).identifier@,
                    ),
        {
            if !self.processes.contains(toplevels[i].identifier.as_str()) {
                assert(!self.processes@.contains_key(toplevels@[i as int].identifier@));
                return true;
            }
        }
        false
    }

    /// Learn the process behind the windows in `toplevels`, if one was never asked about,
    /// from what the compositor answers. `false` when nothing could answer.
    pub fn refresh_pids(&mut self, toplevels: &[Toplevel], answer: Option<&Vec<(String, u32)>>)
        -> (r: bool)
        requires
            old(self).wf(),
        ensures
            final(self).wf(),
            final(self).app_ids == old(self).app_ids,
            final(self).titles == old(self).titles,
            final(self).pids == old(self).pids,
            final(self).identifiers == old(self).identifiers,
            r == (!old(self).asks(toplevels@) || answer is Some),
            final(self).processes@ == match answer {
                Some(a) => if old(self).asks(toplevels@) {
                    learned(old(self).processes@, toplevels@, a@, toplevels@.len() as int)
                } else {
                    old(self).processes@
                },
                None => old(self).processes@,
            },
    {
        if !self.must_ask(toplevels) {
            return true;
        }
        let ghost before = *self;
        match answer {
            None => false,
            Some(a) => {
                for i in 0..toplevels.len()
                    invariant
                        self.wf(),
                        self.app_ids == before.app_ids,
                        self.titles == before.titles,
                        self.pids == before.pids,
                        self.identifiers == before.identifiers,
                        self.processes@ == learned(before.processes@, toplevels@, a@, i as int),
                {
                    let pid = process_of(a, toplevels[i].identifier.as_str());
                    self.processes.insert(toplevels[i].identifier.clone(), pid);
                }
                true
            },
        }
    }

    /// Whether the filter admits a window.
    pub open spec fn passes(&self, w: Window) -> bool {
        app_id_ok(self.app_ids@, w) && title_ok(self.titles@, w) && pid_ok(
            self.pids@,
            self.processes@,
            w,
        ) && identifier_ok(self.identifiers, w)
    }

    /// Whether this window passes. The app id and title are compared the way a single window
    /// is named by them, so the flags mean one thing across the suite.
    ///
    /// A window whose process is unknown fails a filter on processes: a filter admits what
    /// it has matched, never what it could not check.
    pub fn admits(&self, w: Candidate<'_>) -> (r: bool)
        requires
            self.wf(),
        ensures
            r == self.passes(w@),
    {
        let mut by_app = self.app_ids.len() == 0;
        for i in 0..self.app_ids.len()
            invariant
                by_app == (self.app_ids@.len() == 0 || exists|j: int|
                    0 <= j < i && eq_ignore_ascii_case(
                        w.app_id@,
                        (#[trigger] self.app_ids@[j])@,
                    )),
        {
            let f = WindowFilter { app_id: Some(self.app_ids[i].as_str()), title: None };
            let hit = f.matches(w.app_id, w.title);
            assert(hit == eq_ignore_ascii_case(w.app_id@, self.app_ids@[i as int]@));
            if hit {
                by_app = true;
            }
        }
        let mut by_title = self.titles.len() == 0;
        for i in 0..self.titles.len()
            invariant
                by_title == (self.titles@.len() == 0 || exists|j: int|
                    0 <= j < i && contains(
                        lowercase(w.title@),
                        lowercase((#[trigger] self.titles@[j])@),
                    )),
        {
            let f = WindowFilter { app_id: None, title: Some(self.titles[i].as_str()) };
            let hit = f.matches(w.app_id, w.title);
            assert(hit == contains(
                lowercase(w.title@),
                lowercase(self.titles@[i as int]@),
            ));
            if hit {
                by_title = true;
            }
        }
        let by_pid = if self.pids.len() == 0 {
            true
        } else {
            match self.processes.get(w.identifier) {
                Some(Some(pid)) => holds_number(&self.pids, *pid),
                _ => false,
            }
        };
        let by_identifier = match &self.identifiers {
            Some(f) => f.admits(w.identifier),
            None => true,
        };
        by_app && by_title && by_pid && by_identifier
    }

    /// The flags that make this filter.
    pub open spec fn flag_texts(&self) -> Seq<Seq<char>> {
        flags("--app-id "@, self.app_ids@) + flags("--title "@, self.titles@) + number_flags(
            "--pid "@,
            self.pids@,
        )
    }

    /// The filter written back as the flags that produced it, to quote in the message shown
    /// when it matches nothing.
    pub fn describe(&self) -> (r: String)
        ensures
            r@ == join(self.flag_texts(), " "@),
    {
        let mut parts: Vec<String> = Vec::new();
        assert(views(parts@) =~= Seq::empty());
        push_flags(&mut parts, "--app-id ", &self.app_ids);
        push_flags(&mut parts, "--title ", &self.titles);
        push_number_flags(&mut parts, "--pid ", &self.pids);
        assert(views(parts@) =~= self.flag_texts());
        join_strings(&parts, " ")
    }
}

fn holds_number(v: &Vec<u32>, n: u32) -> (r: bool)
    ensures
        r == v@.contains(n),
{
    for i in 0..v.len()
        invariant
            forall|j: int| 0 <= j < i ==> v@[j] != n,
    {
        if v[i] == n {
            assert(v@[i as int] == n);
            return true;
        }
    }
    false
}

/// A filter with nothing in it admits every window.
pub proof fn an_empty_filter_admits_every_window(f: WindowFilters, w: Window)
    requires
        f.app_ids@.len() == 0,
        f.titles@.len() == 0,
        f.pids@.len() == 0,
        f.identifiers is None,
    ensures
        f.passes(w),
{
}

/// Another value of one kind admits what was admitted: the values of one kind widen.
pub proof fn another_value_only_widens(
    f: WindowFilters,
    g: WindowFilters,
    more: String,
    w: Window,
)
    requires
        f.app_ids@.len() > 0,
        g.app_ids@ == f.app_ids@.push(more),
        g.titles@ == f.titles@,
        g.pids@ == f.pids@,
        g.processes@ == f.processes@,
        g.identifiers == f.identifiers,
        f.passes(w),
    ensures
        g.passes(w),
{
    let i = choose|i: int|
        0 <= i < f.app_ids@.len() && eq_ignore_ascii_case(
            w.app_id,
            (#[trigger] f.app_ids@[i])@,
        );
    assert(g.app_ids@[i] == f.app_ids@[i]);
}

/// Criteria of different kinds narrow each other: what both admit is what is admitted with
/// both.
pub proof fn kinds_narrow_each_other(
    f: WindowFilters,
    g: WindowFilters,
    both: WindowFilters,
    w: Window,
)
    requires
        f.titles@.len() == 0,
        f.pids@.len() == 0,
        f.identifiers is None,
        g.app_ids@.len() == 0,
        both.app_ids@ == f.app_ids@,
        both.titles@ == g.titles@,
        both.pids@ == g.pids@,
        both.processes@ == g.processes@,
        both.identifiers == g.identifiers,
    ensures
        both.passes(w) == (f.passes(w) && g.passes(w)),
{
}

/// A window whose process is not known never passes a filter on processes.
pub proof fn an_unknown_process_never_passes(f: WindowFilters, w: Window)
    requires
        f.pids@.len() > 0,
        !f.processes@.contains_key(w.identifier) || f.processes@[w.identifier] is None,
    ensures
        !f.passes(w),
{
}

/// What is learned covers the windows asked about, and what was known of others stays.
proof fn learning_covers(
    known: Map<Seq<char>, Option<u32>>,
    toplevels: Seq<Toplevel>,
    answer: Seq<(String, u32)>,
    n: int,
)
    requires
        0 <= n <= toplevels.len(),
    ensures
        forall|i: int|
            0 <= i < n ==> learned(known, toplevels, answer, n).contains_key(
                (#[trigger] toplevels[i]).identifier@,
            ),
    decreases n,
{
    if n > 0 {
        learning_covers(known, toplevels, answer, n - 1);
    }
}

/// No window is asked about twice, not even one the compositor names no process for: once
/// an answer was taken in, the same windows ask for nothing more.
pub proof fn no_window_is_asked_about_twice(
    before: WindowFilters,
    after: WindowFilters,
    toplevels: Seq<Toplevel>,
    answer: Seq<(String, u32)>,
)
    requires
        before.asks(toplevels),
        after.pids == before.pids,
        after.processes@ == learned(
            before.processes@,
            toplevels,
            answer,
            toplevels.len() as int,
        ),
    ensures
        !after.asks(toplevels),
{
    learning_covers(before.processes@, toplevels, answer, toplevels.len() as int);
}

/// The windows' names, in order.
pub open spec fn candidate_names(windows: Seq<Window>) -> Seq<Names> {
    Seq::new(windows.len(), |i: int| (windows[i].app_id, windows[i].title))
}

/// The windows that pass among the first `n`, each with its ordinal among all windows that
/// share its names.
pub open spec fn admitted(windows: Seq<Window>, f: WindowFilters, n: int) -> Seq<
    (usize, usize),
>
    decreases n,
{
    if n <= 0 {
        Seq::empty()
    } else {
        let rest = admitted(windows, f, n - 1);
        if f.passes(windows[n - 1]) {
            rest.push(
                (
                    (n - 1) as usize,
                    count_named(
                        candidate_names(windows),
                        candidate_names(windows)[n - 1],
                        n - 1,
                    ) as usize,
                ),
            )
        } else {
            rest
        }
    }
}

fn ordinal(windows: &[Candidate<'_>], i: usize) -> (r: usize)
    requires
        i < windows@.len(),
    ensures
        r <= i,
        r == count_named(
            candidate_names(windows_of(windows@)),
            candidate_names(windows_of(windows@))[i as int],
            i as int,
        ),
{
    let mut n: usize = 0;
    for j in 0..i
        invariant
            i < windows@.len(),
            n <= j,
            n == count_named(
                candidate_names(windows_of(windows@)),
                candidate_names(windows_of(windows@))[i as int],
                j as int,
            ),
    {
        let hit = same(windows[j].app_id, windows[i].app_id) && same(
            windows[j].title,
            windows[i].title,
        );
        assert(hit == (candidate_names(windows_of(windows@))[j as int] == candidate_names(windows_of(windows@))[i as int]));
        if hit {
            n = n + 1;
        }
    }
    n
}

/// The windows a run offers, as positions in `windows` paired with each one's ordinal among
/// windows sharing its (app id, title).
///
/// The ordinal counts the windows the filter drops as well: it is how a window is named for
/// activation, so narrowing the list must not renumber what is left of it.
pub fn admitted_windows(windows: &[Candidate<'_>], filters: &WindowFilters) -> (r: Vec<
    (usize, usize),
>)
    requires
        filters.wf(),
    ensures
        r@ == admitted(windows_of(windows@), *filters, windows@.len() as int),
{
    let mut kept: Vec<(usize, usize)> = Vec::new();
    for i in 0..windows.len()
        invariant
            filters.wf(),
            kept@ == admitted(windows_of(windows@), *filters, i as int),
    {
        if filters.admits(windows[i]) {
            kept.push((i, ordinal(windows, i)));
        }
    }
    kept
}

/// What is offered is what passes, in the list's order, and its ordinal does not depend on
/// the filter: it counts every window before it of the same names.
pub proof fn narrowing_does_not_renumber(windows: Seq<Window>, f: WindowFilters, n: int)
    requires
        0 <= n <= windows.len() <= usize::MAX,
    ensures
        forall|k: int|
            0 <= k < admitted(windows, f, n).len() ==> {
                let (i, ordinal) = #[trigger] admitted(windows, f, n)[k];
                &&& i < n
                &&& f.passes(windows[i as int])
                &&& ordinal == count_named(
                    candidate_names(windows),
                    candidate_names(windows)[i as int],
                    i as int,
                )
            },
        forall|a: int, b: int|
            0 <= a < b < admitted(windows, f, n).len() ==> (#[trigger] admitted(
                windows,
                f,
                n,
            )[a]).0 < (#[trigger] admitted(windows, f, n)[b]).0,
        forall|i: int|
            0 <= i < n && f.passes(#[trigger] windows[i]) ==> exists|k: int|
                0 <= k < admitted(windows, f, n).len() && (#[trigger] admitted(
                    windows,
                    f,
                    n,
                )[k]).0 == i,
    decreases n,
{
    if n > 0 {
        narrowing_does_not_renumber(windows, f, n - 1);
        let rest = admitted(windows, f, n - 1);
        let all = admitted(windows, f, n);
        counts_are_bounded(candidate_names(windows), candidate_names(windows)[n - 1], n - 1);
        assert forall|i: int| 0 <= i < n && f.passes(#[trigger] windows[i]) implies exists|k: int|
            0 <= k < all.len() && (#[trigger] all[k]).0 == i by {
            if i == n - 1 {
                assert(all[all.len() - 1].0 == i);
            } else {
                let k = choose|k: int| 0 <= k < rest.len() && (#[trigger] rest[k]).0 == i;
                assert(all[k] == rest[k]);
            }
        }
    }
}

/// There are at most as many as were looked at.
proof fn counts_are_bounded(names: Seq<Names>, who: Names, n: int)
    requires
        n >= 0,
    ensures
        count_named(names, who, n) <= n,
    decreases n,
{
    if n > 0 {
        counts_are_bounded(names, who, n - 1);
    }
}

/// How the capture thread orders windows.
pub enum WindowOrder {
    /// By app id, then title.
    ByName,
    /// Each window identifier's rank, most recently focused first.
    Mru(Table<usize>),
}

/// The ranks of the first `n` identifiers.
pub open spec fn ranks(windows: Seq<&str>, n: int) -> Map<Seq<char>, usize>
    decreases n,
{
    if n <= 0 {
        Map::empty()
    } else {
        ranks(windows, n - 1).insert(windows[n - 1]@, (n - 1) as usize)
    }
}

/// Where a window stands: by its rank if it has one, by its names otherwise.
pub struct WindowPlace {
    pub rank: Option<usize>,
    pub app_id: Seq<char>,
    pub title: Seq<char>,
}

/// Whether one place comes before another. Windows opened since the ranking go after every
/// ranked one, by name.
pub open spec fn place_before(a: WindowPlace, b: WindowPlace) -> bool {
    match (a.rank, b.rank) {
        (Some(x), Some(y)) => x < y,
        (Some(_), None) => true,
        (None, Some(_)) => false,
        (None, None) => text_before(a.app_id, b.app_id) || (!text_before(b.app_id, a.app_id)
            && text_before(a.title, b.title)),
    }
}

/// What a window is sorted by.
pub struct WindowKey {
    rank: Option<usize>,
    app_id: Vec<char>,
    title: Vec<char>,
}

impl View for WindowKey {
    type V = WindowPlace;

    closed spec fn view(&self) -> WindowPlace {
        WindowPlace { rank: self.rank, app_id: self.app_id@, title: self.title@ }
    }
}

impl SortKey for WindowKey {
    open spec fn before(&self, other: &Self) -> bool {
        place_before(self@, other@)
    }

    proof fn is_an_order(a: Self, b: Self, c: Self) {
        text_order(a@.app_id, b@.app_id, c@.app_id);
        text_order(b@.app_id, a@.app_id, c@.app_id);
        text_order(c@.app_id, b@.app_id, a@.app_id);
        text_order(a@.title, b@.title, c@.title);
        text_order(a@.app_id, c@.app_id, b@.app_id);
        text_order(b@.app_id, c@.app_id, a@.app_id);
        text_order(c@.app_id, a@.app_id, b@.app_id);
    }

    fn comes_before(&self, other: &Self) -> (r: bool) {
        match (self.rank, other.rank) {
            (Some(x), Some(y)) => x < y,
            (Some(_), None) => true,
            (None, Some(_)) => false,
            (None, None) => chars_before(self.app_id.as_slice(), other.app_id.as_slice()) || (
            !chars_before(other.app_id.as_slice(), self.app_id.as_slice()) && chars_before(
                self.title.as_slice(),
                other.title.as_slice(),
            )),
        }
    }
}

/// Each key is where its window stands.
pub open spec fn keys_of(keys: Seq<WindowKey>, order: WindowOrder, windows: Seq<Source>) -> bool {
    keys.len() == windows.len() && forall|i: int|
        0 <= i < keys.len() ==> (#[trigger] keys[i])@ == order.place(windows[i]@)
}

/// `r` lists the windows' positions, each once, in the order: a window that comes before
/// another stands before it, and level ones keep the order they came in.
pub open spec fn lists_in_order(order: WindowOrder, windows: Seq<Source>, r: Seq<usize>) -> bool {
    &&& r.len() == windows.len()
    &&& forall|k: int| 0 <= k < r.len() ==> 0 <= #[trigger] r[k] < windows.len()
    &&& forall|v: usize| 0 <= v < windows.len() ==> #[trigger] r.contains(v)
    &&& forall|a: int, b: int|
        0 <= a < b < r.len() ==> {
            let x = order.place(windows[#[trigger] r[a] as int]@);
            let y = order.place(windows[#[trigger] r[b] as int]@);
            place_before(x, y) || (!place_before(y, x) && r[a] < r[b])
        }
}

impl WindowOrder {
    /// The ranking is a table.
    pub open spec fn wf(&self) -> bool {
        self matches WindowOrder::Mru(rank) ==> rank.wf()
    }

    /// From window identifiers, most recently focused first.
    pub fn mru(windows: &[&str]) -> (r: WindowOrder)
        ensures
            r.wf(),
            r matches WindowOrder::Mru(rank) && rank@ == ranks(windows@, windows@.len() as int),
    {
        let mut rank: Table<usize> = Table::new();
        for i in 0..windows.len()
            invariant
                rank.wf(),
                rank@ == ranks(windows@, i as int),
        {
            rank.insert(String::from_str(windows[i]), i);
        }
        WindowOrder::Mru(rank)
    }

    /// Whether a focus history was read but ranks none of the `windows` on screen.
    ///
    /// The ranking is keyed by what a compositor calls a window, the tiles by the toplevel
    /// list's identifier; that the two agree is owed by no protocol. When they stop agreeing
    /// the order quietly degrades to alphabetical, which is the right fallback but a silent
    /// one.
    pub fn mru_unmatched(&self, windows: &[Source]) -> (r: bool)
        requires
            self.wf(),
        ensures
            r == match self {
                WindowOrder::ByName => false,
                WindowOrder::Mru(rank) => (exists|k: Seq<char>| #[trigger]
                    rank@.contains_key(k)) && forall|i: int|
                    0 <= i < windows@.len() ==> !rank@.contains_key((#[trigger] windows@[i]).key@),
            },
    {
        match self {
            WindowOrder::ByName => false,
            WindowOrder::Mru(rank) => {
                proof {
                    contents_are_the_entries(rank.entries@);
                }
                if rank.entries.len() == 0 {
                    return false;
                }
                assert(rank@.contains_key(rank.entries@[0].0@));
                for i in 0..windows.len()
                    invariant
                        self matches WindowOrder::Mru(r) && *rank == r,
                        rank.wf(),
                        forall|j: int|
                            0 <= j < i ==> !rank@.contains_key((#[trigger] windows@[j]).key@),
                {
                    if rank.contains(windows[i].key.as_str()) {
                        assert(rank@.contains_key(windows@[i as int].key@));
                        return false;
                    }
                }
                true
            },
        }
    }

    /// Where a window stands in this order.
    pub open spec fn place(&self, s: Entry) -> WindowPlace {
        WindowPlace {
            rank: match self {
                WindowOrder::ByName => None,
                WindowOrder::Mru(rank) => if rank@.contains_key(s.key) {
                    Some(rank@[s.key])
                } else {
                    None
                },
            },
            app_id: lowercase(s.app_id),
            title: lowercase(s.win_title),
        }
    }

    fn key(&self, s: &Source) -> (r: WindowKey)
        requires
            self.wf(),
        ensures
            r@ == self.place(s@),
    {
        let app_id = lowercase_chars(chars_of(s.app_id.as_str()).as_slice());
        let title = lowercase_chars(chars_of(s.win_title.as_str()).as_slice());
        let rank: Option<usize> = match self {
            WindowOrder::ByName => None,
            WindowOrder::Mru(rank) => match rank.get(s.key.as_str()) {
                Some(n) => Some(*n),
                None => None,
            },
        };
        WindowKey { rank, app_id, title }
    }

    /// Whether window `a` goes before, after or level with `b`.
    pub fn compare(&self, a: &Source, b: &Source) -> (r: Ordering)
        requires
            self.wf(),
        ensures
            (r is Less) == place_before(self.place(a@), self.place(b@)),
            (r is Greater) == place_before(self.place(b@), self.place(a@)),
    {
        let x = self.key(a);
        let y = self.key(b);
        proof {
            WindowKey::is_an_order(x, y, x);
        }
        if x.comes_before(&y) {
            Ordering::Less
        } else if y.comes_before(&x) {
            Ordering::Greater
        } else {
            Ordering::Equal
        }
    }

    /// The windows' positions in this order.
    pub fn sorted(&self, windows: &[Source]) -> (r: Vec<usize>)
        requires
            self.wf(),
        ensures
            lists_in_order(*self, windows@, r@),
    {
        let mut keys: Vec<WindowKey> = Vec::new();
        for i in 0..windows.len()
            invariant
                self.wf(),
                keys@.len() == i,
                forall|j: int|
                    0 <= j < i ==> (#[trigger] keys@[j])@ == self.place(windows@[j]@),
        {
            keys.push(self.key(&windows[i]));
        }
        let r = sort_positions(&keys);
        proof {
            assert(keys_of(keys@, *self, windows@));
            assert forall|a: int, b: int| 0 <= a < b < r@.len() implies {
                let x = self.place(windows@[#[trigger] r@[a] as int]@);
                let y = self.place(windows@[#[trigger] r@[b] as int]@);
                place_before(x, y) || (!place_before(y, x) && r@[a] < r@[b])
            } by {
                assert(goes_before(keys@, r@[a] as int, r@[b] as int));
                assert(keys@[r@[a] as int]@ == self.place(windows@[r@[a] as int]@));
                assert(keys@[r@[b] as int]@ == self.place(windows@[r@[b] as int]@));
            }
        }
        r
    }
}

/// The order is one: no window comes before itself, and both "before" and "not before" carry
/// over.
pub proof fn the_window_order_is_one(
    order: WindowOrder,
    a: Entry,
    b: Entry,
    c: Entry,
)
    ensures
        !place_before(order.place(a), order.place(a)),
        place_before(order.place(a), order.place(b)) && place_before(order.place(b), order.place(c))
            ==> place_before(order.place(a), order.place(c)),
        !place_before(order.place(a), order.place(b)) && !place_before(
            order.place(b),
            order.place(c),
        ) ==> !place_before(order.place(a), order.place(c)),
{
    let (x, y, z) = (order.place(a), order.place(b), order.place(c));
    text_order(x.app_id, y.app_id, z.app_id);
    text_order(y.app_id, x.app_id, z.app_id);
    text_order(z.app_id, y.app_id, x.app_id);
    text_order(x.title, y.title, z.title);
    text_order(x.app_id, z.app_id, y.app_id);
    text_order(y.app_id, z.app_id, x.app_id);
    text_order(z.app_id, x.app_id, y.app_id);
}

/// A window without a rank goes after every window that has one.
pub proof fn a_new_window_goes_last(order: WindowOrder, ranked: Entry, new: Entry)
    requires
        order matches WindowOrder::Mru(rank) && rank@.contains_key(ranked.key)
            && !rank@.contains_key(new.key),
    ensures
        place_before(order.place(ranked), order.place(new)),
{
}

/// What is picked is the window it was made of: its names, its ordinal and its identifier.
pub proof fn a_windows_pick_is_the_window(
    w: Toplevel,
    dup_index: usize,
    s: Source,
    p: Selection,
    id: WindowIdentity,
)
    requires
        call_ensures(window_source, (&w, dup_index), s),
        call_ensures(Source::selection, (&s,), p),
        call_ensures(Selection::identity, (&p,), id),
    ensures
        p.is_window,
        p.identifier@ == w.identifier@,
        p.token@ == "Window: "@ + w.identifier@,
        id.app_id@ == w.app_id@,
        id.title@ == w.title@,
        id.dup_index == dup_index,
{
}

/// What is picked of an output is the output, under its own name whatever it is labelled.
pub proof fn an_outputs_pick_is_the_output(o: Output, label: &str, s: Source, p: Selection)
    requires
        call_ensures(output_source, (&o, label), s),
        call_ensures(Source::selection, (&s,), p),
    ensures
        !p.is_window,
        p.output@ == o.name@,
        p.token@ == "Monitor: "@ + o.name@,
        p.identifier@.len() == 0,
        s.title@ == label@,
        s.key@ == "out:"@ + o.name@,
{
}

/// A window is shown by its application and, under it, its title; one that belongs to no
/// application by its title alone.
pub proof fn a_window_is_shown_by_its_names(w: Toplevel, dup_index: usize, s: Source)
    requires
        call_ensures(window_source, (&w, dup_index), s),
    ensures
        s.is_system <==> w.app_id@.len() == 0,
        w.app_id@.len() > 0 ==> s.title@ == w.app_id@ && s.subtitle@ == w.title@,
        w.app_id@.len() == 0 ==> s.title@ == w.title@ && s.subtitle@.len() == 0,
{
}

/// Two windows are told apart by any of their names and their ordinal, and by nothing else.
pub proof fn windows_are_told_apart_by_their_names(
    a: Toplevel,
    b: WindowIdentity,
    i: usize,
    s: Source,
    r: bool,
)
    requires
        call_ensures(window_source, (&a, i), s),
        call_ensures(Source::is, (&s, &b), r),
    ensures
        r <==> a.app_id@ == b.app_id@ && a.title@ == b.title@ && i == b.dup_index,
{
}

/// A list to show and a list to leave out part the windows between them.
pub proof fn only_and_except_part_the_windows(
    ids: Vec<String>,
    only: Filter,
    except: Filter,
    id: &str,
    a: bool,
    b: bool,
)
    requires
        call_ensures(Filter::only, (ids,), only),
        call_ensures(Filter::except, (ids,), except),
        call_ensures(Filter::admits, (&only, id), a),
        call_ensures(Filter::admits, (&except, id), b),
    ensures
        a != b,
        a <==> exists|i: int| 0 <= i < ids@.len() && (#[trigger] ids@[i])@ == id@,
{
    let v = views(ids@);
    if v.contains(id@) {
        let i = choose|i: int| 0 <= i < v.len() && v[i] == id@;
        assert(ids@[i]@ == id@);
    }
    if exists|i: int| 0 <= i < ids@.len() && (#[trigger] ids@[i])@ == id@ {
        let i = choose|i: int| 0 <= i < ids@.len() && (#[trigger] ids@[i])@ == id@;
        assert(v[i] == id@);
    }
}

/// A window is admitted by a filter on its own application, on a part of its title and on its
/// process, however many others the filter names.
pub proof fn a_window_passes_what_names_it(
    f: WindowFilters,
    w: Candidate<'_>,
    r: bool,
    i: int,
    j: int,
    at: int,
    pid: u32,
)
    requires
        call_ensures(WindowFilters::admits, (&f, w), r),
        f.identifiers is None,
        f.app_ids@.len() == 0 || (0 <= i < f.app_ids@.len() && f.app_ids@[i]@ == w.app_id@),
        f.titles@.len() == 0 || (0 <= j < f.titles@.len() && ({
            let t = lowercase(w.title@);
            let part = lowercase(f.titles@[j]@);
            0 <= at && at + part.len() <= t.len() && t.subrange(at, at + part.len()) == part
        })),
        f.pids@.len() == 0 || (f.pids@.contains(pid) && f.processes@.contains_key(w.identifier@)
            && f.processes@[w.identifier@] == Some(pid)),
    ensures
        r,
{
    if f.titles@.len() > 0 {
        let t = lowercase(w.title@);
        let part = lowercase(f.titles@[j]@);
        assert forall|k: int| 0 <= k < part.len() implies t[at + k] == part[k] by {
            assert(t.subrange(at, at + part.len())[k] == t[at + k]);
        }
        assert(crate::text::occurs_at(t, part, at));
    }
}

/// A window that is admitted has a name the filter asks for of every kind that it asks for.
pub proof fn what_is_admitted_was_asked_for(f: WindowFilters, w: Candidate<'_>, r: bool)
    requires
        call_ensures(WindowFilters::admits, (&f, w), r),
        r,
    ensures
        f.app_ids@.len() > 0 ==> exists|i: int|
            0 <= i < f.app_ids@.len() && (#[trigger] f.app_ids@[i])@.len() == w.app_id@.len(),
        f.titles@.len() > 0 ==> exists|i: int, at: int|
            0 <= i < f.titles@.len() && #[trigger] crate::text::occurs_at(
                lowercase(w.title@),
                lowercase(f.titles@[i]@),
                at,
            ),
        f.pids@.len() > 0 ==> exists|p: u32|
            f.pids@.contains(p) && f.processes@.contains_pair(w.identifier@, Some(p)),
{
    if f.app_ids@.len() > 0 {
        let i = choose|i: int|
            0 <= i < f.app_ids@.len() && eq_ignore_ascii_case(
                w.app_id@,
                (#[trigger] f.app_ids@[i])@,
            );
        assert(f.app_ids@[i]@.len() == w.app_id@.len());
    }
    if f.titles@.len() > 0 {
        let i = choose|i: int|
            0 <= i < f.titles@.len() && contains(
                lowercase(w.title@),
                lowercase((#[trigger] f.titles@[i])@),
            );
        let at = choose|at: int|
            crate::text::occurs_at(lowercase(w.title@), lowercase(f.titles@[i]@), at);
        assert(crate::text::occurs_at(lowercase(w.title@), lowercase(f.titles@[i]@), at));
    }
}

/// What is learned of a window is the process that the answer names first for it, or that it
/// names none; what was known of other windows stays.
pub proof fn what_is_learned_is_what_was_answered(
    f: &mut WindowFilters,
    toplevels: &[Toplevel],
    answer: Vec<(String, u32)>,
    r: bool,
    i: int,
    k: int,
    other: Seq<char>,
)
    requires
        call_ensures(WindowFilters::refresh_pids, (f, toplevels, Some(&answer)), r),
        old(f).pids@.len() > 0,
        0 <= i < toplevels@.len(),
        !old(f).processes@.contains_key(toplevels@[i].identifier@),
        0 <= k < answer@.len(),
        answer@[k].0@ == toplevels@[i].identifier@,
        forall|j: int| 0 <= j < k ==> (#[trigger] answer@[j]).0@ != toplevels@[i].identifier@,
        forall|j: int| 0 <= j < toplevels@.len() ==> (#[trigger] toplevels@[j]).identifier@
            != other,
    ensures
        r,
        final(f).processes@.contains_pair(toplevels@[i].identifier@, Some(answer@[k].1)),
        old(f).processes@.contains_key(other) <==> final(f).processes@.contains_key(other),
        old(f).processes@.contains_key(other) ==> final(f).processes@[other]
            == old(f).processes@[other],
{
    let n = toplevels@.len() as int;
    assert(old(f).asks(toplevels@));
    process_found(answer@, toplevels@[i].identifier@, 0, k);
    learning_says(old(f).processes@, toplevels@, answer@, n, i, other);
}

proof fn process_found(answer: Seq<(String, u32)>, id: Seq<char>, k: int, n: int)
    requires
        0 <= k <= n < answer.len(),
        answer[n].0@ == id,
        forall|j: int| k <= j < n ==> (#[trigger] answer[j]).0@ != id,
    ensures
        process_in(answer, id, k) == Some(answer[n].1),
    decreases n - k,
{
    if k < n {
        assert(answer[k].0@ != id);
        process_found(answer, id, k + 1, n);
    }
}

proof fn learning_says(
    known: Map<Seq<char>, Option<u32>>,
    toplevels: Seq<Toplevel>,
    answer: Seq<(String, u32)>,
    n: int,
    i: int,
    other: Seq<char>,
)
    requires
        0 <= n <= toplevels.len(),
        0 <= i,
        forall|j: int| 0 <= j < toplevels.len() ==> (#[trigger] toplevels[j]).identifier@ != other,
    ensures
        i < n ==> learned(known, toplevels, answer, n).contains_pair(
            toplevels[i].identifier@,
            process_in(answer, toplevels[i].identifier@, 0),
        ),
        learned(known, toplevels, answer, n).contains_key(other) <==> known.contains_key(other),
        known.contains_key(other) ==> learned(known, toplevels, answer, n)[other] == known[other],
    decreases n,
{
    if n > 0 {
        learning_says(known, toplevels, answer, n - 1, i, other);
        assert(toplevels[n - 1].identifier@ != other);
    }
}

/// The window used last comes first: two that stand in the list of use go as they stand in it.
pub proof fn windows_go_as_they_were_used(
    used: &[&str],
    order: WindowOrder,
    a: Source,
    b: Source,
    r: Ordering,
    i: int,
    j: int,
)
    requires
        call_ensures(WindowOrder::mru, (used,), order),
        call_ensures(WindowOrder::compare, (&order, &a, &b), r),
        0 <= i < j < used@.len() <= usize::MAX,
        a.key@ == used@[i]@,
        b.key@ == used@[j]@,
        forall|k: int| i < k < used@.len() ==> (#[trigger] used@[k])@ != a.key@,
    ensures
        r is Less,
{
    ranked_in_turn(used@, i, j);
    assert(used@[j]@ != a.key@);
}

proof fn ranked_in_turn(windows: Seq<&str>, i: int, j: int)
    requires
        0 <= i < j < windows.len() <= usize::MAX,
        forall|k: int| i < k < windows.len() ==> (#[trigger] windows[k])@ != windows[i]@,
    ensures
        ({
            let m = ranks(windows, windows.len() as int);
            m.contains_key(windows[i]@) && m.contains_key(windows[j]@) && m[windows[i]@]
                < m[windows[j]@]
        }),
{
    let n = windows.len() as int;
    ranked(windows, n, i);
    ranked(windows, n, j);
}

proof fn ranked(windows: Seq<&str>, n: int, i: int)
    requires
        0 <= i < n <= windows.len() <= usize::MAX,
    ensures
        ranks(windows, n).contains_key(windows[i]@),
        i <= ranks(windows, n)[windows[i]@] < n,
        (forall|k: int| i < k < n ==> (#[trigger] windows[k])@ != windows[i]@) ==> ranks(
            windows,
            n,
        )[windows[i]@] == i,
    decreases n,
{
    if i < n - 1 {
        ranked(windows, n - 1, i);
        if windows[n - 1]@ == windows[i]@ {
        }
    }
}

/// By name, windows go by their applications, those of one application by their titles, and
/// capitals go with small letters.
pub proof fn windows_go_by_application_and_title(a: Source, b: Source, r: Ordering)
    requires
        call_ensures(WindowOrder::compare, (&WindowOrder::ByName, &a, &b), r),
    ensures
        text_before(lowercase(a.app_id@), lowercase(b.app_id@)) ==> r is Less,
        text_before(lowercase(b.app_id@), lowercase(a.app_id@)) ==> r is Greater,
        lowercase(a.app_id@) == lowercase(b.app_id@) && text_before(
            lowercase(a.win_title@),
            lowercase(b.win_title@),
        ) ==> r is Less,
        lowercase(a.app_id@) == lowercase(b.app_id@) && lowercase(a.win_title@) == lowercase(
            b.win_title@,
        ) ==> r is Equal,
{
    text_order(lowercase(a.app_id@), lowercase(b.app_id@), lowercase(a.app_id@));
    text_order(lowercase(b.app_id@), lowercase(a.app_id@), lowercase(b.app_id@));
    text_order(lowercase(a.win_title@), lowercase(b.win_title@), lowercase(a.win_title@));
}

/// A source is found by typing any of its names: a window by its application and by its title, an
/// output by its label and by its own name.
pub proof fn a_source_is_found_by_its_names(
    w: Toplevel,
    dup_index: usize,
    o: Output,
    label: &str,
    s: Source,
    t: Source,
)
    requires
        call_ensures(window_source, (&w, dup_index), s),
        call_ensures(output_source, (&o, label), t),
    ensures
        exists|x: Seq<char>|
            s.filter@ == lowercase(x) && #[trigger] contains(x, w.app_id@) && contains(x, w.title@),
        exists|x: Seq<char>|
            t.filter@ == lowercase(x) && #[trigger] contains(x, o.name@) && contains(x, label@),
{
    both_are_part(w.app_id@, " "@, w.title@);
    both_are_part(label@, " "@, o.name@);
}

proof fn both_are_part(a: Seq<char>, gap: Seq<char>, b: Seq<char>)
    ensures
        contains(a + gap + b, a),
        contains(a + gap + b, b),
{
    let e = Seq::<char>::empty();
    crate::text::a_text_is_in_what_it_is_part_of(e, a, gap + b);
    crate::text::a_text_is_in_what_it_is_part_of(a + gap, b, e);
    assert(e + a + (gap + b) =~= a + gap + b);
    assert(a + gap + b + e =~= a + gap + b);
}

/// A list that was sorted goes as any two of its windows compare, and lists every window.
pub proof fn a_sorted_list_goes_as_its_windows_compare(
    order: WindowOrder,
    windows: &[Source],
    r: Vec<usize>,
    a: int,
    b: int,
    i: int,
    j: int,
    later: Ordering,
)
    requires
        call_ensures(WindowOrder::sorted, (&order, windows), r),
        0 <= a < b < r@.len(),
        r@[a] == i,
        r@[b] == j,
        call_ensures(WindowOrder::compare, (&order, &windows@[j], &windows@[i]), later),
    ensures
        later !is Less,
        later is Equal ==> r@[a] < r@[b],
        r@.len() == windows@.len(),
{
    let (x, y) = (windows@[i]@, windows@[j]@);
    the_window_order_is_one(order, x, y, x);
}

} // verus!
