//! The capture thread's side of the picker: what it lists and captures round after round.
//!
//! Each round takes up the windows that are there, announces the list where it changed,
//! closes what has gone, opens what is new, and labels the frames that came in. Sessions are
//! kept across rounds, so that tiles show live content.

use crate::image::{can_sample, image_thumbnail, resampled, CapturedImage};
use crate::order::{goes_before, sort_positions, text_before, text_order, SortKey, TextKey};
use crate::session::SessionId;
use crate::sources::{
    admitted, admitted_windows, lists, lists_in_order, narrowing_does_not_renumber, output_entry,
    output_source, window_entry, window_of, window_source, windows_of, Candidate, Source, Window,
    WindowFilters, WindowOrder,
};
use crate::table::{contents, contents_are_the_entries, distinct, named, Table};
use crate::text::{decimal, push_decimal, same, views};
use crate::wl::{Output, Toplevel};
use vstd::prelude::*;
use vstd::string::*;

verus! {

/// Per-round time budget in milliseconds: an upper bound on the refresh rate (capture is
/// damage-driven, so this is a ceiling, not a forced rate). Shared memory pays a full
/// readback, conversion, downscale and upload per frame, so it is kept modest; the GPU path
/// is near-free per frame, so it runs much faster.
pub fn round_budget(gpu: bool) -> (r: u64)
    ensures
        r == if gpu {
            33u64
        } else {
            160u64
        },
{
    if gpu {
        33
    } else {
        160
    }
}

/// What is captured for a source: the output or the window at that place in its list.
#[derive(Clone, Copy, Debug, PartialEq, Eq, Structural)]
pub enum Capturable {
    Output(usize),
    Window(usize),
}

/// A source paired with what it takes to open its capture session.
pub struct Listed {
    pub source: Source,
    pub capture: Capturable,
}

/// `p` lists the outputs' positions by name; outputs of one name keep their order.
pub open spec fn by_name(outputs: Seq<Output>, p: Seq<usize>) -> bool {
    &&& p.len() == outputs.len()
    &&& forall|k: int| 0 <= k < p.len() ==> 0 <= #[trigger] p[k] < outputs.len()
    &&& forall|v: usize| 0 <= v < outputs.len() ==> #[trigger] p.contains(v)
    &&& forall|a: int, b: int|
        0 <= a < b < p.len() ==> {
            let x = outputs[#[trigger] p[a] as int].name@;
            let y = outputs[#[trigger] p[b] as int].name@;
            text_before(x, y) || (!text_before(y, x) && p[a] < p[b])
        }
}

/// The outputs' positions by name.
fn outputs_by_name(outputs: &[Output]) -> (r: Vec<usize>)
    ensures
        by_name(outputs@, r@),
{
    let mut keys: Vec<TextKey> = Vec::new();
    for i in 0..outputs.len()
        invariant
            keys@.len() == i,
            forall|j: int| 0 <= j < i ==> (#[trigger] keys@[j])@ == outputs@[j].name@,
    {
        keys.push(TextKey::new(outputs[i].name.as_str()));
    }
    let r = sort_positions(&keys);
    assert forall|a: int, b: int| 0 <= a < b < r@.len() implies {
        let x = outputs@[#[trigger] r@[a] as int].name@;
        let y = outputs@[#[trigger] r@[b] as int].name@;
        text_before(x, y) || (!text_before(y, x) && r@[a] < r@[b])
    } by {
        assert(goes_before(keys@, r@[a] as int, r@[b] as int));
        assert(keys@[r@[a] as int]@ == outputs@[r@[a] as int].name@);
        assert(keys@[r@[b] as int]@ == outputs@[r@[b] as int].name@);
    }
    r
}

/// The toplevels as the filter sees them.
pub open spec fn listed_windows(toplevels: Seq<Toplevel>) -> Seq<Window> {
    Seq::new(toplevels.len(), |i: int| window_of(toplevels[i]))
}

/// `ws` are the sources of the windows that pass, in the toplevels' order.
pub open spec fn offered(toplevels: Seq<Toplevel>, f: WindowFilters, ws: Seq<Source>) -> bool {
    let kept = admitted(listed_windows(toplevels), f, toplevels.len() as int);
    ws.len() == kept.len() && forall|j: int|
        0 <= j < ws.len() ==> (#[trigger] ws[j])@ == window_entry(
            toplevels[kept[j].0 as int],
            kept[j].1,
        )
}

/// The outputs' part of a list: by name, each under its label.
pub open spec fn outputs_listed(
    r: Seq<Listed>,
    outputs: Seq<Output>,
    labels: Seq<String>,
    p: Seq<usize>,
) -> bool {
    by_name(outputs, p) && p.len() <= r.len() && forall|k: int|
        0 <= k < p.len() ==> (#[trigger] r[k]).capture == Capturable::Output(p[k]) && r[k].source@
            == output_entry(outputs[p[k] as int].name@, labels[p[k] as int]@)
}

/// The windows' part of a list: those that pass, in the order.
pub open spec fn windows_listed(
    r: Seq<Listed>,
    toplevels: Seq<Toplevel>,
    f: WindowFilters,
    order: WindowOrder,
    ws: Seq<Source>,
    q: Seq<usize>,
) -> bool {
    let kept = admitted(listed_windows(toplevels), f, toplevels.len() as int);
    offered(toplevels, f, ws) && lists_in_order(order, ws, q) && r.len() == q.len() && forall|k:
        int|
        0 <= k < q.len() ==> (#[trigger] r[k]).capture == Capturable::Window(kept[q[k] as int].0)
            && r[k].source == ws[q[k] as int]
}

/// The current sources in a stable, predictable order: outputs first, by name, then the
/// windows that the filter admits, in the order. Windows that share their names are numbered
/// in creation order, so before they are sorted.
pub fn arrange(
    outputs: &[Output],
    labels: &Vec<String>,
    toplevels: &[Toplevel],
    filters: &WindowFilters,
    order: &WindowOrder,
) -> (r: Vec<Listed>)
    requires
        labels@.len() == outputs@.len(),
        filters.wf(),
        order.wf(),
    ensures
        r@.len() >= outputs@.len(),
        exists|p: Seq<usize>| outputs_listed(r@, outputs@, labels@, p),
        exists|ws: Seq<Source>, q: Seq<usize>|
            windows_listed(
                r@.skip(outputs@.len() as int),
                toplevels@,
                *filters,
                *order,
                ws,
                q,
            ),
{
    let mut out: Vec<Listed> = Vec::new();
    let p = outputs_by_name(outputs);
    for k in 0..p.len()
        invariant
            labels@.len() == outputs@.len(),
            by_name(outputs@, p@),
            out@.len() == k,
            forall|j: int|
                0 <= j < k ==> (#[trigger] out@[j]).capture == Capturable::Output(p@[j])
                    && out@[j].source@ == output_entry(
                    outputs@[p@[j] as int].name@,
                    labels@[p@[j] as int]@,
                ),
    {
        let at: usize = p[k];
        let source = output_source(&outputs[at], labels[at].as_str());
        out.push(Listed { source, capture: Capturable::Output(at) });
    }
    let ghost first = out@;
    let mut candidates: Vec<Candidate<'_>> = Vec::new();
    for i in 0..toplevels.len()
        invariant
            candidates@.len() == i,
            forall|j: int| 0 <= j < i ==> (#[trigger] candidates@[j])@ == window_of(toplevels@[j]),
    {
        candidates.push(Candidate::from(&toplevels[i]));
    }
    let kept = admitted_windows(candidates.as_slice(), filters);
    let ghost all = listed_windows(toplevels@);
    assert(windows_of(candidates@) =~= all);
    proof {
        narrowing_does_not_renumber(all, *filters, toplevels@.len() as int);
    }
    let mut ws: Vec<Source> = Vec::new();
    for j in 0..kept.len()
        invariant
            all == listed_windows(toplevels@),
            kept@ == admitted(all, *filters, toplevels@.len() as int),
            forall|k: int| 0 <= k < kept@.len() ==> (#[trigger] kept@[k]).0 < toplevels@.len(),
            ws@.len() == j,
            forall|k: int|
                0 <= k < j ==> (#[trigger] ws@[k])@ == window_entry(
                    toplevels@[kept@[k].0 as int],
                    kept@[k].1,
                ),
    {
        ws.push(window_source(&toplevels[kept[j].0], kept[j].1));
    }
    let q = order.sorted(ws.as_slice());
    for k in 0..q.len()
        invariant
            lists_in_order(*order, ws@, q@),
            ws@.len() == kept@.len(),
            out@.len() == first.len() + k,
            out@.take(first.len() as int) == first,
            forall|j: int|
                first.len() <= j < first.len() + k ==> (#[trigger] out@[j]).capture
                    == Capturable::Window(kept@[q@[j - first.len()] as int].0) && out@[j].source
                    == ws@[q@[j - first.len()] as int],
    {
        let at: usize = q[k];
        let ghost before = out@;
        out.push(Listed { source: ws[at].clone(), capture: Capturable::Window(kept[at].0) });
        assert(out@.take(first.len() as int) =~= before.take(first.len() as int));
    }
    proof {
        assert forall|k: int| 0 <= k < p@.len() implies (#[trigger] out@[k]).capture
            == Capturable::Output(p@[k]) && out@[k].source@ == output_entry(
            outputs@[p@[k] as int].name@,
            labels@[p@[k] as int]@,
        ) by {
            assert(out@.take(first.len() as int)[k] == first[k]);
        }
        assert(outputs_listed(out@, outputs@, labels@, p@));
        let tail = out@.skip(outputs@.len() as int);
        assert(windows_listed(tail, toplevels@, *filters, *order, ws@, q@));
    }
    out
}

/// The keys of the sources, in order.
pub fn keys_of(current: &Vec<Listed>) -> (r: Vec<String>)
    ensures
        r@.len() == current@.len(),
        forall|i: int| 0 <= i < r@.len() ==> (#[trigger] r@[i])@ == current@[i].source@.key,
{
    let mut keys: Vec<String> = Vec::new();
    for i in 0..current.len()
        invariant
            keys@.len() == i,
            forall|j: int| 0 <= j < i ==> (#[trigger] keys@[j])@ == current@[j].source@.key,
    {
        keys.push(current[i].source.key.clone());
    }
    keys
}

/// Whether a tracked source is still listed.
pub open spec fn listed(keys: Seq<Seq<char>>) -> spec_fn((String, SessionId)) -> bool {
    |e: (String, SessionId)| keys.contains(e.0@)
}

/// Whether a tracked source has gone.
pub open spec fn gone(keys: Seq<Seq<char>>) -> spec_fn((String, SessionId)) -> bool {
    |e: (String, SessionId)| !keys.contains(e.0@)
}

/// The keys without those that have gone.
pub open spec fn without(iconed: Map<Seq<char>, ()>, lost: Seq<(String, SessionId)>) -> Map<
    Seq<char>,
    (),
>
    decreases lost.len(),
{
    if lost.len() == 0 {
        iconed
    } else {
        without(iconed, lost.drop_last()).remove(lost.last().0@)
    }
}

/// What the capture thread keeps of its sources from one round to the next.
pub struct Tracker {
    /// The session of each source that is captured, by key.
    pub sessions: Table<SessionId>,
    /// The windows whose icon was looked for.
    pub iconed: Table<()>,
    /// The keys that were last announced.
    pub last_keys: Vec<String>,
    /// Whether the focus history has been confronted with a window list yet.
    pub mru_checked: bool,
}

/// No session stands for two sources.
pub open spec fn one_source_each(s: Seq<(String, SessionId)>) -> bool {
    forall|i: int, j: int| 0 <= i < j < s.len() ==> (#[trigger] s[i]).1 != (#[trigger] s[j]).1
}

fn same_list(a: &Vec<String>, b: &Vec<String>) -> (r: bool)
    ensures
        r == (views(a@) == views(b@)),
{
    if a.len() != b.len() {
        assert(views(a@).len() != views(b@).len());
        return false;
    }
    for i in 0..a.len()
        invariant
            a@.len() == b@.len(),
            forall|j: int| 0 <= j < i ==> views(a@)[j] == views(b@)[j],
    {
        if !same(a[i].as_str(), b[i].as_str()) {
            assert(views(a@)[i as int] != views(b@)[i as int]);
            return false;
        }
    }
    assert(views(a@) =~= views(b@));
    true
}

/// Some entries of a table make a table, with the same values.
proof fn some_entries(s: Seq<(String, SessionId)>, keep: spec_fn((String, SessionId)) -> bool)
    requires
        distinct(s),
        one_source_each(s),
    ensures
        distinct(s.filter(keep)),
        one_source_each(s.filter(keep)),
        forall|i: int|
            0 <= i < s.filter(keep).len() ==> keep(#[trigger] s.filter(keep)[i]) && exists|j: int|
                0 <= j < s.len() && s[j] == s.filter(keep)[i],
        forall|j: int|
            0 <= j < s.len() && keep(#[trigger] s[j]) ==> exists|i: int|
                0 <= i < s.filter(keep).len() && s.filter(keep)[i] == s[j],
    decreases s.len(),
{
    reveal(Seq::filter);
    if s.len() > 0 {
        let t = s.drop_last();
        some_entries(t, keep);
        let f = t.filter(keep);
        let g = s.filter(keep);
        assert forall|i: int| 0 <= i < g.len() implies keep(#[trigger] g[i]) && exists|j: int|
            0 <= j < s.len() && s[j] == g[i] by {
            if i < f.len() {
                assert(f[i] == g[i]);
                let j = choose|j: int| 0 <= j < t.len() && t[j] == f[i];
                assert(s[j] == g[i]);
            } else {
                assert(s[s.len() - 1] == g[i]);
            }
        }
        assert forall|j: int| 0 <= j < s.len() && keep(#[trigger] s[j]) implies exists|i: int|
            0 <= i < g.len() && g[i] == s[j] by {
            if j < t.len() {
                assert(t[j] == s[j]);
                let i = choose|i: int| 0 <= i < f.len() && f[i] == t[j];
                assert(g[i] == s[j]);
            } else {
                assert(g[g.len() - 1] == s[j]);
            }
        }
        assert forall|a: int, b: int| 0 <= a < b < g.len() implies (#[trigger] g[a]).0@ != (
        #[trigger] g[b]).0@ && g[a].1 != g[b].1 by {
            if b < f.len() {
                assert(f[a] == g[a] && f[b] == g[b]);
            } else {
                assert(f[a] == g[a]);
                let j = choose|j: int| 0 <= j < t.len() && t[j] == f[a];
                assert(s[j] == g[a]);
                assert(s[s.len() - 1] == g[b]);
            }
        }
    }
}

/// The entries that are kept hold what they held.
proof fn kept_contents(all: Seq<(String, SessionId)>, names: Seq<Seq<char>>)
    requires
        distinct(all),
        one_source_each(all),
    ensures
        distinct(all.filter(listed(names))),
        one_source_each(all.filter(listed(names))),
        forall|k: Seq<char>|
            #[trigger] contents(all.filter(listed(names))).contains_key(k) <==> contents(
                all,
            ).contains_key(k) && names.contains(k),
        forall|k: Seq<char>|
            contents(all.filter(listed(names))).contains_key(k) ==> #[trigger] contents(
                all.filter(listed(names)),
            )[k] == contents(all)[k],
{
    let now = all.filter(listed(names));
    some_entries(all, listed(names));
    contents_are_the_entries(all);
    contents_are_the_entries(now);
    assert forall|k: Seq<char>|
        #[trigger] contents(now).contains_key(k) <==> contents(all).contains_key(k)
            && names.contains(k) by {
        if contents(now).contains_key(k) {
            let i = choose|i: int| named(now, k, i);
            assert(listed(names)(now[i]));
            let j = choose|j: int| 0 <= j < all.len() && all[j] == now[i];
            assert(named(all, k, j));
        }
        if contents(all).contains_key(k) && names.contains(k) {
            let j = choose|j: int| named(all, k, j);
            assert(listed(names)(all[j]));
            let i = choose|i: int| 0 <= i < now.len() && now[i] == all[j];
            assert(named(now, k, i));
        }
    }
    assert forall|k: Seq<char>| contents(now).contains_key(k) implies #[trigger] contents(now)[k]
        == contents(all)[k] by {
        let i = choose|i: int| named(now, k, i);
        let j = choose|j: int| 0 <= j < all.len() && all[j] == now[i];
        assert(contents(now)[now[i].0@] == now[i].1);
        assert(contents(all)[all[j].0@] == all[j].1);
    }
}

/// What one more entry adds to a filtered list.
proof fn one_more(
    all: Seq<(String, SessionId)>,
    keep: spec_fn((String, SessionId)) -> bool,
    i: int,
)
    requires
        0 <= i < all.len(),
    ensures
        all.take(i + 1).filter(keep) == if keep(all[i]) {
            all.take(i).filter(keep).push(all[i])
        } else {
            all.take(i).filter(keep)
        },
{
    reveal(Seq::filter);
    assert(all.take(i + 1).drop_last() =~= all.take(i));
}

impl Tracker {
    /// The tables are tables, and no session stands for two sources.
    pub open spec fn wf(&self) -> bool {
        self.sessions.wf() && self.iconed.wf() && one_source_each(self.sessions.entries@)
    }

    /// Nothing is captured yet.
    pub fn new() -> (r: Tracker)
        ensures
            r.wf(),
            r.sessions@ == Map::<Seq<char>, SessionId>::empty(),
            r.iconed@ == Map::<Seq<char>, ()>::empty(),
            r.last_keys@.len() == 0,
            !r.mru_checked,
    {
        Tracker {
            sessions: Table::new(),
            iconed: Table::new(),
            last_keys: Vec::new(),
            mru_checked: false,
        }
    }

    /// Whether the focus history turned out to rank none of the windows on screen. The
    /// ranking is built before the windows are known, so that can only be seen here. One
    /// round with windows on it settles the question.
    pub fn check_mru(&mut self, order: &WindowOrder, windows: &[Source]) -> (r: bool)
        requires
            old(self).wf(),
            order.wf(),
        ensures
            *final(self) == (Tracker {
                mru_checked: old(self).mru_checked || windows@.len() > 0,
                ..*old(self)
            }),
            r == (!old(self).mru_checked && windows@.len() > 0 && match order {
                WindowOrder::ByName => false,
                WindowOrder::Mru(rank) => (exists|k: Seq<char>| #[trigger]
                    rank@.contains_key(k)) && forall|i: int|
                    0 <= i < windows@.len() ==> !rank@.contains_key((#[trigger] windows@[i]).key@),
            }),
    {
        if !self.mru_checked && windows.len() > 0 {
            self.mru_checked = true;
            return order.mru_unmatched(windows);
        }
        false
    }

    /// Whether the list is to be announced: only when it changed, in what is on it or in
    /// their order.
    pub fn announce(&mut self, keys: &Vec<String>) -> (r: bool)
        ensures
            r == (views(keys@) != views(old(self).last_keys@)),
            views(final(self).last_keys@) == views(keys@),
            final(self).sessions == old(self).sessions,
            final(self).iconed == old(self).iconed,
            final(self).mru_checked == old(self).mru_checked,
    {
        if same_list(keys, &self.last_keys) {
            return false;
        }
        let mut copy: Vec<String> = Vec::new();
        for i in 0..keys.len()
            invariant
                copy@.len() == i,
                forall|j: int| 0 <= j < i ==> copy@[j] == keys@[j],
        {
            copy.push(keys[i].clone());
        }
        assert(views(copy@) =~= views(keys@));
        self.last_keys = copy;
        true
    }

    /// Forget the sources that are no longer listed. What comes back is each of them, whose
    /// session is to be closed and whose pictures are to be dropped.
    pub fn drop_gone(&mut self, keys: &Vec<String>) -> (r: Vec<(String, SessionId)>)
        requires
            old(self).wf(),
        ensures
            final(self).wf(),
            r@ == old(self).sessions.entries@.filter(gone(views(keys@))),
            final(self).sessions.entries@ == old(self).sessions.entries@.filter(
                listed(views(keys@)),
            ),
            forall|k: Seq<char>|
                #[trigger] final(self).sessions@.contains_key(k) <==> old(
                    self,
                ).sessions@.contains_key(k) && views(keys@).contains(k),
            forall|k: Seq<char>|
                final(self).sessions@.contains_key(k) ==> #[trigger] final(self).sessions@[k]
                    == old(self).sessions@[k],
            final(self).iconed@ == without(old(self).iconed@, r@),
            final(self).last_keys == old(self).last_keys,
            final(self).mru_checked == old(self).mru_checked,
    {
        let ghost all = self.sessions.entries@;
        let ghost names = views(keys@);
        let ghost icons = self.iconed@;
        let mut kept: Vec<(String, SessionId)> = Vec::new();
        let mut lost: Vec<(String, SessionId)> = Vec::new();
        assert(all.take(0).filter(listed(names)) =~= Seq::empty()) by {
            reveal(Seq::filter);
        }
        assert(all.take(0).filter(gone(names)) =~= Seq::empty()) by {
            reveal(Seq::filter);
        }
        let n: usize = self.sessions.entries.len();
        for i in 0..n
            invariant
                n == all.len(),
                self.sessions.entries@ == all,
                names == views(keys@),
                self.iconed.wf(),
                self.last_keys == old(self).last_keys,
                self.mru_checked == old(self).mru_checked,
                kept@ == all.take(i as int).filter(listed(names)),
                lost@ == all.take(i as int).filter(gone(names)),
                self.iconed@ == without(icons, lost@),
        {
            let key = self.sessions.entries[i].0.clone();
            let id = self.sessions.entries[i].1;
            proof {
                one_more(all, listed(names), i as int);
                one_more(all, gone(names), i as int);
            }
            if lists(keys, key.as_str()) {
                kept.push((key, id));
            } else {
                self.iconed.remove(key.as_str());
                let ghost before = lost@;
                lost.push((key, id));
                assert(lost@.drop_last() =~= before);
            }
        }
        proof {
            assert(all.take(n as int) =~= all);
            kept_contents(all, names);
        }
        self.sessions = Table { entries: kept };
        lost
    }

    /// Whether a session is to be opened for a source.
    pub fn untracked(&self, key: &str) -> (r: bool)
        requires
            self.wf(),
        ensures
            r == !self.sessions@.contains_key(key@),
    {
        !self.sessions.contains(key)
    }

    /// A session was opened for a source, or could not be. Whether its icon is to be looked
    /// for: once per window, so that it can be told independently of its thumbnail.
    pub fn opened(&mut self, key: &str, id: Option<SessionId>, is_window: bool) -> (r: bool)
        requires
            old(self).wf(),
            !old(self).sessions@.contains_key(key@),
            id matches Some(id) ==> forall|i: int|
                0 <= i < old(self).sessions.entries@.len() ==> (
                #[trigger] old(self).sessions.entries@[i]).1 != id,
        ensures
            final(self).wf(),
            final(self).sessions@ == match id {
                Some(id) => old(self).sessions@.insert(key@, id),
                None => old(self).sessions@,
            },
            r == (is_window && !old(self).iconed@.contains_key(key@)),
            final(self).iconed@ == if is_window {
                old(self).iconed@.insert(key@, ())
            } else {
                old(self).iconed@
            },
            final(self).last_keys == old(self).last_keys,
            final(self).mru_checked == old(self).mru_checked,
    {
        if let Some(id) = id {
            self.sessions.insert(String::from_str(key), id);
        }
        if !is_window {
            return false;
        }
        let first = !self.iconed.contains(key);
        self.iconed.insert(String::from_str(key), ());
        first
    }

    /// A frame could not be imported on the GPU: captures go through shared memory from now
    /// on, so that the previews come back. What comes back is the sessions to close, every
    /// one of them, unless the GPU was given up already. They are closed rather than given
    /// new buffers: capture is incremental by damage, so a fresh buffer on a live session
    /// would stay empty until the source repaints.
    pub fn gpu_fallback(&mut self, failed: bool, gpu_disabled: bool) -> (r: Option<Vec<SessionId>>)
        requires
            old(self).wf(),
        ensures
            final(self).wf(),
            final(self).iconed == old(self).iconed,
            final(self).last_keys == old(self).last_keys,
            final(self).mru_checked == old(self).mru_checked,
            match r {
                Some(ids) => {
                    &&& failed && !gpu_disabled
                    &&& ids@ == old(self).sessions.entries@.map_values(
                        |e: (String, SessionId)| e.1,
                    )
                    &&& final(self).sessions@ == Map::<Seq<char>, SessionId>::empty()
                },
                None => !(failed && !gpu_disabled) && *final(self) == *old(self),
            },
    {
        if !failed || gpu_disabled {
            return None;
        }
        let ghost all = self.sessions.entries@.map_values(|e: (String, SessionId)| e.1);
        let mut ids: Vec<SessionId> = Vec::new();
        for i in 0..self.sessions.entries.len()
            invariant
                all == self.sessions.entries@.map_values(|e: (String, SessionId)| e.1),
                ids@ == all.take(i as int),
        {
            ids.push(self.sessions.entries[i].1);
            assert(all.take(i + 1) =~= all.take(i as int).push(all[i as int]));
        }
        assert(all.take(all.len() as int) =~= all);
        self.sessions = Table::new();
        Some(ids)
    }

    fn position(&self, id: SessionId) -> (r: Option<usize>)
        ensures
            match r {
                Some(i) => i < self.sessions.entries@.len() && self.sessions.entries@[i as int].1
                    == id,
                None => forall|j: int|
                    0 <= j < self.sessions.entries@.len() ==> (
                    #[trigger] self.sessions.entries@[j]).1 != id,
            },
    {
        for i in 0..self.sessions.entries.len()
            invariant
                forall|j: int|
                    0 <= j < i ==> (#[trigger] self.sessions.entries@[j]).1 != id,
        {
            if self.sessions.entries[i].1 == id {
                return Some(i);
            }
        }
        None
    }

    /// The source whose session `id` is: no other has it.
    pub open spec fn is_of(&self, id: SessionId, key: Seq<char>) -> bool {
        self.sessions@.contains_key(key) && self.sessions@[key] == id
    }

    /// The source a session's frames are labelled with. Frames of other sessions are passed
    /// over.
    pub fn label(&self, id: SessionId) -> (r: Option<&str>)
        requires
            self.wf(),
        ensures
            match r {
                Some(key) => self.is_of(id, key@) && forall|k: Seq<char>| #[trigger]
                    self.is_of(id, k) ==> k == key@,
                None => forall|k: Seq<char>| !self.is_of(id, k),
            },
    {
        proof {
            contents_are_the_entries(self.sessions.entries@);
        }
        let at = self.position(id);
        match at {
            Some(i) => {
                proof {
                    let e = self.sessions.entries@;
                    assert(self.sessions@[e[i as int].0@] == e[i as int].1);
                    assert forall|k: Seq<char>| #[trigger] self.is_of(id, k) implies k
                        == e[i as int].0@ by {
                        let j = choose|j: int| named(e, k, j);
                        assert(self.sessions@[e[j].0@] == e[j].1);
                        if j < i {
                            assert(e[j].1 != e[i as int].1);
                        } else if i < j {
                            assert(e[i as int].1 != e[j].1);
                        }
                    }
                }
                Some(self.sessions.entries[i].0.as_str())
            },
            None => {
                assert forall|k: Seq<char>| !self.is_of(id, k) by {
                    let e = self.sessions.entries@;
                    if self.is_of(id, k) {
                        let j = choose|j: int| named(e, k, j);
                        assert(self.sessions@[e[j].0@] == e[j].1);
                    }
                }
                None
            },
        }
    }

    /// The compositor stopped a session: its source is forgotten, and opened again next
    /// round if it is still listed.
    pub fn stopped(&mut self, id: SessionId)
        requires
            old(self).wf(),
        ensures
            final(self).wf(),
            final(self).iconed == old(self).iconed,
            final(self).last_keys == old(self).last_keys,
            final(self).mru_checked == old(self).mru_checked,
            forall|k: Seq<char>| !final(self).is_of(id, k),
            forall|k: Seq<char>, other: SessionId|
                other != id ==> #[trigger] final(self).is_of(other, k) == old(self).is_of(other, k),
    {
        let ghost before = *self;
        let found = match self.label(id) {
            Some(key) => Some(String::from_str(key)),
            None => None,
        };
        if let Some(key) = found {
            let ghost e = self.sessions.entries@;
            let at = self.sessions.position(key.as_str());
            if let Some(i) = at {
                self.sessions.remove(key.as_str());
                proof {
                    contents_are_the_entries(e);
                    contents_are_the_entries(self.sessions.entries@);
                    let now = self.sessions.entries@;
                    assert forall|a: int, b: int| 0 <= a < b < now.len() implies (
                    #[trigger] now[a]).1 != (#[trigger] now[b]).1 by {
                        assert(contents(now).contains_key(now[a].0@));
                        assert(contents(now).contains_key(now[b].0@));
                        assert(contents(e)[now[a].0@] == now[a].1);
                        assert(contents(e)[now[b].0@] == now[b].1);
                        let x = choose|x: int| named(e, now[a].0@, x);
                        let y = choose|y: int| named(e, now[b].0@, y);
                        assert(contents(e)[e[x].0@] == e[x].1);
                        assert(contents(e)[e[y].0@] == e[y].1);
                        assert(now[a].0@ != now[b].0@);
                        if x < y {
                            assert(e[x].1 != e[y].1);
                        } else {
                            assert(e[y].1 != e[x].1);
                        }
                    }
                    assert forall|k: Seq<char>| !self.is_of(id, k) by {
                        if self.is_of(id, k) {
                            assert(before.is_of(id, k));
                        }
                    }
                }
            }
        }
    }
}

/// Sources that are listed stay captured: closing what has gone leaves each of their
/// sessions as it was.
pub proof fn a_listed_source_keeps_its_session(
    before: Tracker,
    after: Tracker,
    keys: Seq<Seq<char>>,
    id: SessionId,
    key: Seq<char>,
)
    requires
        before.wf(),
        after.sessions.entries@ == before.sessions.entries@.filter(listed(keys)),
        before.is_of(id, key),
        keys.contains(key),
    ensures
        after.is_of(id, key),
{
    kept_contents(before.sessions.entries@, keys);
}

/// The offset basis of the fingerprint.
pub const FNV_BASIS: u64 = 0xcbf29ce484222325;

/// The prime of the fingerprint.
pub const FNV_PRIME: u64 = 0x100000001b3;

/// One byte into a fingerprint.
pub open spec fn mixed(h: u64, b: u64) -> u64 {
    (((h ^ b) * FNV_PRIME) % 0x1_0000_0000_0000_0000) as u64
}

/// The bytes from `i` on, `step` apart, into a fingerprint.
pub open spec fn sampled(rgba: Seq<u8>, step: int, i: int, h: u64) -> u64
    decreases
            (if i < rgba.len() {
                rgba.len() - i
            } else {
                0
            }),
{
    if i < 0 || i >= rgba.len() || step <= 0 {
        h
    } else {
        sampled(rgba, step, i + step, mixed(h, rgba[i] as u64))
    }
}

/// The fingerprint of a frame.
pub open spec fn fingerprint(rgba: Seq<u8>) -> u64 {
    let step = if rgba.len() / 4096 > 1 {
        (rgba.len() / 4096) as int
    } else {
        1
    };
    mixed(sampled(rgba, step, 0, FNV_BASIS), rgba.len() as u64)
}

fn mix(h: u64, b: u64) -> (r: u64)
    ensures
        r == mixed(h, b),
{
    (h ^ b).wrapping_mul(FNV_PRIME)
}

/// Cheap content fingerprint of a frame (subsampled FNV-1a), to tell whether a capture
/// actually changed between rounds. It samples some thousands of bytes spread across the
/// frame, so large captures stay cheap.
pub fn quick_hash(rgba: &Vec<u8>) -> (r: u64)
    ensures
        r == fingerprint(rgba@),
{
    let n: usize = rgba.len();
    let step: usize = if n / 4096 > 1 {
        n / 4096
    } else {
        1
    };
    let mut h: u64 = FNV_BASIS;
    let mut i: usize = 0;
    while i < n
        invariant
            n == rgba@.len(),
            step > 0,
            sampled(rgba@, step as int, 0, FNV_BASIS) == sampled(rgba@, step as int, i as int, h),
        decreases n - i,
    {
        let ghost h0 = h;
        h = mix(h, rgba[i] as u64);
        assert(sampled(rgba@, step as int, i as int, h0) == sampled(
            rgba@,
            step as int,
            i + step,
            h,
        ));
        if step >= n - i {
            i = n;
        } else {
            i = i + step;
        }
    }
    mix(h, n as u64)
}

/// What a benchmark counts for a source.
#[derive(Clone, Copy, Debug, PartialEq, Eq, Structural)]
pub struct Count {
    /// The frames that were captured.
    pub frames: u32,
    /// The frames whose content changed.
    pub changed: u32,
    /// The fingerprint of the last one; 0 for a frame on the GPU.
    pub last: u64,
}

/// A source's count after one more frame: the first has nothing to differ from, and one on
/// the GPU is not compared.
pub open spec fn counted(c: Option<Count>, hash: u64) -> Count {
    match c {
        None => Count { frames: 1, changed: 0, last: hash },
        Some(c) => Count {
            frames: (c.frames + 1) as u32,
            changed: if c.frames > 0 && hash != 0 && c.last != hash {
                (c.changed + 1) as u32
            } else {
                c.changed
            },
            last: hash,
        },
    }
}

/// What a benchmark counts, by source.
pub struct Stats {
    pub counts: Table<Count>,
}

impl Stats {
    /// No more frames have changed than were captured.
    pub open spec fn wf(&self) -> bool {
        self.counts.wf() && forall|k: Seq<char>|
            self.counts@.contains_key(k) ==> 1 <= (#[trigger] self.counts@[k]).frames
                && self.counts@[k].changed < self.counts@[k].frames
    }

    /// Nothing counted yet.
    pub fn new() -> (r: Stats)
        ensures
            r.wf(),
            r.counts@ == Map::<Seq<char>, Count>::empty(),
    {
        Stats { counts: Table::new() }
    }

    /// Count a frame.
    pub fn count(&mut self, key: &str, hash: u64)
        requires
            old(self).wf(),
            old(self).counts@.contains_key(key@) ==> old(self).counts@[key@].frames < u32::MAX,
        ensures
            final(self).wf(),
            final(self).counts@ == old(self).counts@.insert(
                key@,
                counted(
                    if old(self).counts@.contains_key(key@) {
                        Some(old(self).counts@[key@])
                    } else {
                        None
                    },
                    hash,
                ),
            ),
    {
        let known: Option<Count> = match self.counts.get(key) {
            Some(c) => Some(*c),
            None => None,
        };
        let next = match known {
            None => Count { frames: 1, changed: 0, last: hash },
            Some(c) => Count {
                frames: c.frames + 1,
                changed: if hash != 0 && c.last != hash {
                    c.changed + 1
                } else {
                    c.changed
                },
                last: hash,
            },
        };
        self.counts.insert(String::from_str(key), next);
    }

    /// The line on one source.
    pub open spec fn line(key: Seq<char>, c: Count) -> Seq<char> {
        "  "@ + key + ": "@ + decimal(c.frames as nat) + " frames, "@ + decimal(c.changed as nat)
            + " changed"@
    }

    /// `p` lists the sources by key.
    pub open spec fn ranked(&self, p: Seq<usize>) -> bool {
        let e = self.counts.entries@;
        &&& p.len() == e.len()
        &&& forall|k: int| 0 <= k < p.len() ==> 0 <= #[trigger] p[k] < e.len()
        &&& forall|v: usize| 0 <= v < e.len() ==> #[trigger] p.contains(v)
        &&& forall|a: int, b: int|
            0 <= a < b < p.len() ==> text_before(
                e[#[trigger] p[a] as int].0@,
                e[#[trigger] p[b] as int].0@,
            )
    }

    /// The lines that report the counts, by key.
    pub fn lines(&self) -> (r: Vec<String>)
        requires
            self.wf(),
        ensures
            exists|p: Seq<usize>|
                #[trigger] self.ranked(p) && views(r@) == Seq::new(
                    p.len(),
                    |i: int|
                        Self::line(
                            self.counts.entries@[p[i] as int].0@,
                            self.counts.entries@[p[i] as int].1,
                        ),
                ),
    {
        let mut keys: Vec<TextKey> = Vec::new();
        for i in 0..self.counts.entries.len()
            invariant
                keys@.len() == i,
                forall|j: int|
                    0 <= j < i ==> (#[trigger] keys@[j])@ == self.counts.entries@[j].0@,
        {
            keys.push(TextKey::new(self.counts.entries[i].0.as_str()));
        }
        let p = sort_positions(&keys);
        proof {
            let e = self.counts.entries@;
            assert forall|a: int, b: int| 0 <= a < b < p@.len() implies text_before(
                e[#[trigger] p@[a] as int].0@,
                e[#[trigger] p@[b] as int].0@,
            ) by {
                assert(goes_before(keys@, p@[a] as int, p@[b] as int));
                let (x, y) = (p@[a] as int, p@[b] as int);
                assert(keys@[x]@ == e[x].0@);
                assert(keys@[y]@ == e[y].0@);
                text_order(e[x].0@, e[y].0@, e[x].0@);
                TextKey::is_an_order(keys@[x], keys@[x], keys@[x]);
                if x < y {
                    assert(e[x].0@ != e[y].0@);
                } else if y < x {
                    assert(e[y].0@ != e[x].0@);
                }
            }
            assert(self.ranked(p@));
        }
        let ghost wanted = Seq::new(
            p@.len(),
            |i: int|
                Self::line(
                    self.counts.entries@[p@[i] as int].0@,
                    self.counts.entries@[p@[i] as int].1,
                ),
        );
        let mut out: Vec<String> = Vec::new();
        for k in 0..p.len()
            invariant
                self.ranked(p@),
                wanted.len() == p@.len(),
                wanted == Seq::new(
                    p@.len(),
                    |i: int|
                        Self::line(
                            self.counts.entries@[p@[i] as int].0@,
                            self.counts.entries@[p@[i] as int].1,
                        ),
                ),
                views(out@) == wanted.take(k as int),
        {
            let at: usize = p[k];
            let mut s = String::from_str("  ");
            s.append(self.counts.entries[at].0.as_str());
            s.append(": ");
            push_decimal(&mut s, self.counts.entries[at].1.frames as u64);
            s.append(" frames, ");
            push_decimal(&mut s, self.counts.entries[at].1.changed as u64);
            s.append(" changed");
            let ghost before = out@;
            assert(s@ == wanted[k as int]);
            out.push(s);
            assert(views(out@) =~= views(before).push(s@));
            assert(wanted.take(k + 1) =~= wanted.take(k as int).push(wanted[k as int]));
        }
        assert(wanted.take(p@.len() as int) =~= wanted);
        out
    }
}

/// A thumbnail of a capture: its width, height and bytes.
pub open spec fn thumbnail_of(
    rgba: Seq<u8>,
    w: u32,
    h: u32,
    target: Option<(u32, u32)>,
) -> (u32, u32, Seq<u8>) {
    if rgba.len() < w * h * 4 {
        (0, 0, Seq::empty())
    } else {
        match target {
            None => (w, h, rgba),
            Some((nw, nh)) => (nw, nh, resampled(rgba, w, h, nw, nh)),
        }
    }
}

/// Downscale a capture to a thumbnail of that size, or leave it as it is: thumbnails are
/// never upscaled. A capture that is too short for its size gives nothing.
pub fn thumbnail(img: CapturedImage, target: Option<(u32, u32)>) -> (r: CapturedImage)
    requires
        target matches Some((nw, nh)) ==> can_sample(img.width, img.height, nw, nh),
    ensures
        (r.width, r.height, r.rgba@) == thumbnail_of(img.rgba@, img.width, img.height, target),
        img.wf() ==> r.wf(),
{
    assert(img.width * img.height * 4 <= 0x4_0000_0000 * 0xffff_ffff) by (nonlinear_arith)
        requires
            img.width <= 0xffff_ffff,
            img.height <= 0xffff_ffff,
    ;
    let n: u128 = img.width as u128 * img.height as u128 * 4;
    if (img.rgba.len() as u128) < n {
        return CapturedImage { width: 0, height: 0, rgba: Vec::new() };
    }
    match target {
        None => img,
        Some((nw, nh)) => {
            let small = image_thumbnail(img.rgba, img.width, img.height, nw, nh);
            CapturedImage { width: nw, height: nh, rgba: small }
        },
    }
}

/// Every output is listed, before any window, under its own name and to be captured as itself.
pub proof fn every_output_is_listed(
    outputs: &[Output],
    labels: Vec<String>,
    toplevels: &[Toplevel],
    filters: WindowFilters,
    order: WindowOrder,
    r: Vec<Listed>,
    i: usize,
)
    requires
        call_ensures(arrange, (outputs, &labels, toplevels, &filters, &order), r),
        i < outputs@.len(),
    ensures
        exists|k: int|
            0 <= k < outputs@.len() && (#[trigger] r@[k]).capture == Capturable::Output(i)
                && r@[k].source.output@ == outputs@[i as int].name@ && r@[k].source.title@
                == labels@[i as int]@ && !r@[k].source.is_window,
{
    let p = choose|p: Seq<usize>| outputs_listed(r@, outputs@, labels@, p);
    assert(p.contains(i));
    let k = choose|k: int| 0 <= k < p.len() && p[k] == i;
    assert(r@[k].capture == Capturable::Output(p[k]));
    assert(r@[k].source@.output == outputs@[i as int].name@);
    assert(r@[k].source@.title == labels@[i as int]@);
    assert(!r@[k].source@.is_window);
}

/// The outputs stand in the order of their names.
pub proof fn outputs_go_by_name(
    outputs: &[Output],
    labels: Vec<String>,
    toplevels: &[Toplevel],
    filters: WindowFilters,
    order: WindowOrder,
    r: Vec<Listed>,
    a: int,
    b: int,
)
    requires
        call_ensures(arrange, (outputs, &labels, toplevels, &filters, &order), r),
        0 <= a < b < outputs@.len(),
    ensures
        !text_before(r@[b].source.output@, r@[a].source.output@),
{
    let p = choose|p: Seq<usize>| outputs_listed(r@, outputs@, labels@, p);
    let (x, y) = (outputs@[p[a] as int].name@, outputs@[p[b] as int].name@);
    assert(r@[a].source@.output == x);
    assert(r@[b].source@.output == y);
    text_order(x, y, x);
}

/// Every window that passes the filter is listed, to be captured as itself, and no other is.
pub proof fn windows_that_pass_are_listed(
    outputs: &[Output],
    labels: Vec<String>,
    toplevels: &[Toplevel],
    filters: WindowFilters,
    order: WindowOrder,
    r: Vec<Listed>,
    i: usize,
)
    requires
        call_ensures(arrange, (outputs, &labels, toplevels, &filters, &order), r),
        toplevels@.len() <= usize::MAX,
        i < toplevels@.len(),
    ensures
        filters.passes(window_of(toplevels@[i as int])) <==> exists|k: int|
            outputs@.len() <= k < r@.len() && (#[trigger] r@[k]).capture == Capturable::Window(i),
        forall|k: int|
            outputs@.len() <= k < r@.len() && (#[trigger] r@[k]).capture == Capturable::Window(i)
                ==> r@[k].source.key@ == toplevels@[i as int].identifier@
                && r@[k].source.app_id@ == toplevels@[i as int].app_id@
                && r@[k].source.win_title@ == toplevels@[i as int].title@
                && r@[k].source.is_window,
{
    let n = toplevels@.len() as int;
    let m = outputs@.len() as int;
    let all = listed_windows(toplevels@);
    let kept = admitted(all, filters, n);
    let rest = r@.skip(m);
    let (ws, q) = choose|ws: Seq<Source>, q: Seq<usize>|
        windows_listed(rest, toplevels@, filters, order, ws, q);
    narrowing_does_not_renumber(all, filters, n);
    assert(all[i as int] == window_of(toplevels@[i as int]));
    if filters.passes(all[i as int]) {
        let j = choose|j: int| 0 <= j < kept.len() && (#[trigger] kept[j]).0 == i;
        assert(r@.len() == r.len());
        assert(q.contains(j as usize));
        let k = choose|k: int| 0 <= k < q.len() && q[k] == j as usize;
        assert(rest[k].capture == Capturable::Window(kept[q[k] as int].0));
        assert(r@[m + k] == rest[k]);
    }
    assert forall|k: int|
        m <= k < r@.len() && (#[trigger] r@[k]).capture == Capturable::Window(
            i,
        ) implies filters.passes(all[i as int]) && r@[k].source@ == window_entry(
        toplevels@[i as int],
        kept[q[k - m] as int].1,
    ) by {
        assert(rest[k - m] == r@[k]);
        assert(rest[k - m].capture == Capturable::Window(kept[q[k - m] as int].0));
        let j = q[k - m] as int;
        assert(kept[j].0 == i);
        assert(ws[j]@ == window_entry(toplevels@[kept[j].0 as int], kept[j].1));
    }
    assert forall|k: int|
        m <= k < r@.len() && (#[trigger] r@[k]).capture == Capturable::Window(i) implies r@[k].source.key@
        == toplevels@[i as int].identifier@ && r@[k].source.app_id@ == toplevels@[i as int].app_id@
        && r@[k].source.win_title@ == toplevels@[i as int].title@ && r@[k].source.is_window by {
        let e = r@[k].source@;
        assert(e.key == toplevels@[i as int].identifier@);
        assert(e.app_id == toplevels@[i as int].app_id@);
        assert(e.win_title == toplevels@[i as int].title@);
        assert(e.is_window);
    }
}

/// A list is announced when it is another than the one before, and once.
pub proof fn a_list_is_announced_once(
    t: &mut Tracker,
    u: &mut Tracker,
    keys: Vec<String>,
    again: Vec<String>,
    a: bool,
    b: bool,
)
    requires
        call_ensures(Tracker::announce, (t, &keys), a),
        *old(u) == *final(t),
        call_ensures(Tracker::announce, (u, &again), b),
    ensures
        views(again@) == views(keys@) ==> !b,
        views(again@) != views(keys@) ==> b,
{
}

/// A session is closed exactly where its source is listed no more, and a window that comes back
/// is taken for a new one.
pub proof fn what_is_not_listed_is_dropped(
    t: &mut Tracker,
    keys: Vec<String>,
    r: Vec<(String, SessionId)>,
    e: (String, SessionId),
)
    requires
        call_ensures(Tracker::drop_gone, (t, &keys), r),
        old(t).sessions.entries@.contains(e),
    ensures
        r@.contains(e) <==> !views(keys@).contains(e.0@),
        final(t).sessions.entries@.contains(e) <==> views(keys@).contains(e.0@),
        r@.contains(e) ==> !final(t).iconed@.contains_key(e.0@),
{
    let old_entries = old(t).sessions.entries@;
    let (stay, go) = (listed(views(keys@)), gone(views(keys@)));
    broadcast use vstd::seq_lib::group_filter_ensures;

    let i = choose|i: int| 0 <= i < old_entries.len() && old_entries[i] == e;
    if stay(e) {
        old_entries.lemma_filter_contains(stay, i);
    } else {
        old_entries.lemma_filter_contains(go, i);
    }
    if r@.contains(e) {
        let j = choose|j: int| 0 <= j < r@.len() && r@[j] == e;
        assert(go(r@[j]));
        without_lost(old(t).iconed@, r@, j);
    }
    let kept = final(t).sessions.entries@;
    if kept.contains(e) {
        let j = choose|j: int| 0 <= j < kept.len() && kept[j] == e;
        assert(stay(kept[j]));
    }
}

proof fn without_lost(iconed: Map<Seq<char>, ()>, lost: Seq<(String, SessionId)>, j: int)
    requires
        0 <= j < lost.len(),
    ensures
        !without(iconed, lost).contains_key(lost[j].0@),
    decreases lost.len(),
{
    if j < lost.len() - 1 {
        without_lost(iconed, lost.drop_last(), j);
    }
}

/// A window's icon is asked for once, and an output's never.
pub proof fn an_icon_is_asked_for_once(
    t: &mut Tracker,
    u: &mut Tracker,
    key: &str,
    is_window: bool,
    a: bool,
    b: bool,
)
    requires
        call_ensures(Tracker::opened, (t, key, None, is_window), a),
        *old(u) == *final(t),
        call_ensures(Tracker::opened, (u, key, None, is_window), b),
    ensures
        a ==> is_window,
        !old(t).iconed@.contains_key(key@) ==> a == is_window,
        !b,
        final(u).sessions@ == old(t).sessions@,
{
}

/// A frame counts as changed where it differs from the one before it of the same source; of a
/// frame that was not looked into nothing is said; and other sources are not touched.
pub proof fn changes_are_counted(
    s: &mut Stats,
    key: &str,
    hash: u64,
    other: Seq<char>,
)
    requires
        call_ensures(Stats::count, (s, key, hash), ()),
        old(s).counts@.contains_key(key@),
        old(s).wf(),
        old(s).counts@[key@].frames < u32::MAX,
        other != key@,
    ensures
        ({
            let (a, b) = (old(s).counts@[key@], final(s).counts@[key@]);
            &&& b.frames == a.frames + 1
            &&& b.changed == a.changed + (if hash != 0 && hash != a.last {
                1int
            } else {
                0
            })
            &&& b.last == hash
        }),
        final(s).counts@.contains_key(other) == old(s).counts@.contains_key(other),
        old(s).counts@.contains_key(other) ==> final(s).counts@[other] == old(s).counts@[other],
{
}

/// The first frame of a source is counted, and as no change.
pub proof fn a_first_frame_is_no_change(s: &mut Stats, key: &str, hash: u64)
    requires
        call_ensures(Stats::count, (s, key, hash), ()),
        !old(s).counts@.contains_key(key@),
    ensures
        final(s).counts@.contains_key(key@),
        final(s).counts@[key@].frames == 1,
        final(s).counts@[key@].changed == 0,
        final(s).counts@[key@].last == hash,
{
}

/// A tile gets the frame in the size it is drawn in; where that is the frame's own, the frame
/// itself; and of a frame that is cut short nothing.
pub proof fn a_tile_gets_its_size(img: CapturedImage, target: Option<(u32, u32)>, r: CapturedImage)
    requires
        call_ensures(thumbnail, (img, target), r),
    ensures
        img.rgba@.len() < img.width * img.height * 4 ==> r.width == 0 && r.height == 0
            && r.rgba@.len() == 0,
        img.rgba@.len() >= img.width * img.height * 4 && target is None ==> r.rgba@ == img.rgba@
            && r.width == img.width && r.height == img.height,
        img.rgba@.len() >= img.width * img.height * 4 ==> (target matches Some((w, h)) ==> r.width
            == w && r.height == h),
{
}

/// Without the GPU a round is given more time.
pub proof fn copying_is_given_more_time(gpu: u64, cpu: u64)
    requires
        call_ensures(round_budget, (true,), gpu),
        call_ensures(round_budget, (false,), cpu),
    ensures
        30 < gpu < 2 * 17,
        150 < cpu < 10 * gpu / 2,
{
}

/// Falling back from the GPU closes every session, and happens once.
pub proof fn the_fallback_happens_once(
    t: &mut Tracker,
    failed: bool,
    off: bool,
    r: Option<Vec<SessionId>>,
    key: Seq<char>,
)
    requires
        call_ensures(Tracker::gpu_fallback, (t, failed, off), r),
    ensures
        r is Some <==> failed && !off,
        r is Some ==> !final(t).sessions@.contains_key(key) && r->0@.len() == old(
            t).sessions.entries@.len(),
        r is None ==> final(t).sessions@ == old(t).sessions@,
{
}

/// The order of use is held against the windows once, on the first list that has any; it is
/// complained of where it names windows and none of those listed.
pub proof fn the_order_is_checked_once(
    t: &mut Tracker,
    u: &mut Tracker,
    order: WindowOrder,
    windows: &[Source],
    more: &[Source],
    a: bool,
    b: bool,
)
    requires
        call_ensures(Tracker::check_mru, (t, &order, windows), a),
        *old(u) == *final(t),
        call_ensures(Tracker::check_mru, (u, &order, more), b),
        windows@.len() > 0,
    ensures
        !b,
        a ==> order is Mru && !old(t).mru_checked,
        order matches WindowOrder::Mru(rank) ==> (a ==> !rank@.contains_key(windows@[0].key@)),
{
}

/// `x * FNV_PRIME` tells `x` below two to the sixty-fourth, whatever is cut off above.
proof fn the_prime_can_be_divided_out(x: int, y: int)
    requires
        0 <= x < 0x1_0000_0000_0000_0000,
        0 <= y < 0x1_0000_0000_0000_0000,
        (x * FNV_PRIME) % 0x1_0000_0000_0000_0000 == (y * FNV_PRIME) % 0x1_0000_0000_0000_0000,
    ensures
        x == y,
{
    multiplied_back(x);
    multiplied_back(y);
}

proof fn multiplied_back(x: int)
    requires
        0 <= x < 0x1_0000_0000_0000_0000,
    ensures
        (((x * FNV_PRIME) % 0x1_0000_0000_0000_0000) * 0xce965057aff6957b)
            % 0x1_0000_0000_0000_0000 == x,
{
    let m = 0x1_0000_0000_0000_0000int;
    let p = FNV_PRIME as int;
    let q = 0xce965057aff6957bint;
    let n = x * p;
    let (d, r) = (n / m, n % m);
    vstd::arithmetic::div_mod::lemma_fundamental_div_mod(n, m);
    assert(p * q == 887285111055 * m + 1);
    let k = 887285111055 * x - d * q;
    assert(r * q == x + m * k) by (nonlinear_arith)
        requires
            n == m * d + r,
            n == x * p,
            p * q == 887285111055 * m + 1,
            k == 887285111055 * x - d * q,
    ;
    vstd::arithmetic::div_mod::lemma_mod_multiples_vanish(k, x, m);
    vstd::arithmetic::div_mod::lemma_small_mod(x as nat, m as nat);
}

proof fn mixing_tells_apart(h: u64, k: u64, a: u64, b: u64)
    ensures
        h != k ==> mixed(h, a) != mixed(k, a),
        a != b ==> mixed(h, a) != mixed(h, b),
{
    assert(h != k ==> h ^ a != k ^ a) by (bit_vector);
    assert(a != b ==> h ^ a != h ^ b) by (bit_vector);
    if mixed(h, a) == mixed(k, a) {
        the_prime_can_be_divided_out((h ^ a) as int, (k ^ a) as int);
    }
    if mixed(h, a) == mixed(h, b) {
        the_prime_can_be_divided_out((h ^ a) as int, (h ^ b) as int);
    }
}

proof fn sampling_tells_apart(a: Seq<u8>, b: Seq<u8>, step: int, i: int, p: int, h: u64, k: u64)
    requires
        a.len() == b.len(),
        step > 0,
        0 <= i,
        0 <= p < a.len(),
        a[p] != b[p],
        forall|j: int| 0 <= j < a.len() && j != p ==> a[j] == b[j],
        i <= p ==> h == k && exists|n: int| n >= 0 && p == i + #[trigger] (n * step),
        i > p ==> h != k,
    ensures
        sampled(a, step, i, h) != sampled(b, step, i, k),
    decreases
            (if i < a.len() {
                a.len() - i
            } else {
                0
            }),
{
    if i < a.len() {
        let (x, y) = (mixed(h, a[i] as u64), mixed(k, b[i] as u64));
        if i < p {
            let n = choose|n: int| n >= 0 && p == i + #[trigger] (n * step);
            assert(n > 0 && p == i + step + (n - 1) * step) by (nonlinear_arith)
                requires
                    n >= 0,
                    i < p,
                    p == i + n * step,
            ;
            sampling_tells_apart(a, b, step, i + step, p, x, y);
        } else if i == p {
            mixing_tells_apart(h, k, a[i] as u64, b[i] as u64);
            sampling_tells_apart(a, b, step, i + step, p, x, y);
        } else {
            mixing_tells_apart(h, k, a[i] as u64, b[i] as u64);
            sampling_tells_apart(a, b, step, i + step, p, x, y);
        }
    }
}

/// A frame in which one byte changed, of those that are looked at, has another fingerprint: of a
/// small frame every byte is looked at, of a larger one some four thousand at equal distances.
pub proof fn a_changed_frame_is_told_apart(a: Vec<u8>, b: Vec<u8>, r: u64, s: u64, n: int)
    requires
        call_ensures(quick_hash, (&a,), r),
        call_ensures(quick_hash, (&b,), s),
        a@.len() == b@.len(),
        n >= 0,
        ({
            let step = if a@.len() < 8192 {
                1
            } else {
                a@.len() as int / 4096
            };
            let p = n * step;
            &&& p < a@.len()
            &&& a@[p] != b@[p]
            &&& forall|j: int| 0 <= j < a@.len() && j != p ==> a@[j] == b@[j]
        }),
    ensures
        r != s,
{
    let step = if a@.len() < 8192 {
        1
    } else {
        a@.len() as int / 4096
    };
    let p = n * step;
    assert(p >= 0) by (nonlinear_arith)
        requires
            p == n * step,
            n >= 0,
            step > 0,
    ;
    assert(p == 0 + n * step);
    sampling_tells_apart(a@, b@, step, 0, p, FNV_BASIS, FNV_BASIS);
    mixing_tells_apart(
        sampled(a@, step, 0, FNV_BASIS),
        sampled(b@, step, 0, FNV_BASIS),
        a@.len() as u64,
        a@.len() as u64,
    );
}

/// The counts are told source by source in the order of their names, the frames before the
/// changes.
#[verifier::spinoff_prover]
#[verifier::rlimit(60)]
pub proof fn counts_are_told_by_name(s: Stats, r: Vec<String>, a: int, b: int)
    requires
        call_ensures(Stats::lines, (&s,), r),
        0 <= a < b < r@.len(),
    ensures
        r@.len() == s.counts.entries@.len(),
        exists|i: int, j: int|
            0 <= i < r@.len() && 0 <= j < r@.len() && text_before(
                (#[trigger] s.counts.entries@[i]).0@,
                (#[trigger] s.counts.entries@[j]).0@,
            ) && r@[a]@ == told(s.counts.entries@[i]) && r@[b]@ == told(s.counts.entries@[j]),
{
    let e = s.counts.entries@;
    let p = choose|p: Seq<usize>|
        #[trigger] s.ranked(p) && views(r@) == Seq::new(
            p.len(),
            |i: int| Stats::line(e[p[i] as int].0@, e[p[i] as int].1),
        );
    let v = views(r@);
    assert(v.len() == r@.len());
    assert(v[a] == r@[a]@ && v[b] == r@[b]@);
    assert(text_before(e[p[a] as int].0@, e[p[b] as int].0@));
    let (i, j) = (p[a] as int, p[b] as int);
    assert(0 <= i < e.len() && 0 <= j < e.len());
    assert(v[a] == told(e[i]));
    assert(v[b] == told(e[j]));
}

/// What is told of a source: its name, then how many frames came, then how many changed.
pub open spec fn told(e: (String, Count)) -> Seq<char> {
    let (frames, changed) = (decimal(e.1.frames as nat), decimal(e.1.changed as nat));
    "  "@ + e.0@ + ": "@ + frames + " frames, "@ + changed + " changed"@
}

} // verus!
