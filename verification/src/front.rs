//! What the front-ends share: their refusals, and what is settled before an overlay comes up.

use crate::hints::HintRow;
use crate::layout::View as Layout;
use crate::sources::{learned, window_of, Candidate, WindowFilters};
use crate::text::{
    chars_of, join, parse_u32, parse_u32_spec, split_once, split_once_chars, trim, trim_chars,
};
use crate::wl::Toplevel;
use crate::daemon::{can_encode, encodable};
use vstd::prelude::*;
use vstd::string::*;

verus! {

/// Why a run is refused before it shows anything, or what went wrong with it. The refusals
/// answer rather than exit because the daemon has to send them back to the client that
/// asked.
pub enum Refusal {
    /// Hints were asked for on the one presentation that cannot carry them.
    HintsNeedKeyboard,
    /// A grid was asked for on a presentation that has none.
    GridNeedsCard,
    /// Nothing can name the process behind a window.
    PidUnsupported,
    /// The filter, written as flags, matches none of the open windows.
    NoMatch(String),
    /// The compositor cannot capture windows.
    NoWindowCapture,
    /// The compositor keeps no windows aside.
    ScratchpadUnsupported,
    /// The window could not be put aside.
    ScratchpadNotPutAside,
    /// The compositor cannot focus a window on request.
    FocusUnsupported,
    /// Something failed, with the reason.
    Failed(String),
}

/// Refuse tile hints on the card: it has a filter field the user types into, where a letter
/// is a letter. Saying so beats accepting a flag that would then do nothing.
pub fn reject_hints_on_card(hints: Option<HintRow>, layout: Layout) -> (r: Result<(), Refusal>)
    ensures
        r == if hints is Some && layout == Layout::Card {
            Err::<(), Refusal>(Refusal::HintsNeedKeyboard)
        } else {
            Ok(())
        },
{
    if hints.is_some() && layout == Layout::Card {
        return Err(Refusal::HintsNeedKeyboard);
    }
    Ok(())
}

/// Read the process behind each open window for a filter on processes, and refuse when
/// nothing can answer.
///
/// No Wayland protocol carries a process id, so this rests on what not every compositor
/// answers. Ignoring the flag there would be the worst outcome: the overlay would come up
/// holding every window where the user asked for one process's.
pub fn require_window_pids(
    filters: &mut WindowFilters,
    toplevels: &[Toplevel],
    answer: Option<&Vec<(String, u32)>>,
) -> (r: Result<(), Refusal>)
    requires
        old(filters).wf(),
    ensures
        final(filters).wf(),
        final(filters).app_ids == old(filters).app_ids,
        final(filters).titles == old(filters).titles,
        final(filters).pids == old(filters).pids,
        final(filters).identifiers == old(filters).identifiers,
        final(filters).processes@ == match answer {
            Some(a) => if old(filters).asks(toplevels@) {
                learned(
                    old(filters).processes@,
                    toplevels@,
                    a@,
                    toplevels@.len() as int,
                )
            } else {
                old(filters).processes@
            },
            None => old(filters).processes@,
        },
        r == if old(filters).asks(toplevels@) && answer is None {
            Err::<(), Refusal>(Refusal::PidUnsupported)
        } else {
            Ok(())
        },
{
    if filters.refresh_pids(toplevels, answer) {
        return Ok(());
    }
    Err(Refusal::PidUnsupported)
}

/// Whether a filter that asks for something leaves no window.
pub open spec fn leaves_nothing(toplevels: Seq<Toplevel>, f: WindowFilters) -> bool {
    !(f.app_ids@.len() == 0 && f.titles@.len() == 0 && f.pids@.len() == 0 && f.identifiers is None)
        && forall|i: int| 0 <= i < toplevels.len() ==> !f.passes(window_of(#[trigger] toplevels[i]))
}

/// Refuse a filter that matches none of the open windows. The caller has nothing but windows
/// to offer, so an empty list is an empty overlay.
pub fn reject_empty_window_filter(toplevels: &[Toplevel], filters: &WindowFilters) -> (r: Result<
    (),
    Refusal,
>)
    requires
        filters.wf(),
    ensures
        match r {
            Ok(()) => !leaves_nothing(toplevels@, *filters),
            Err(e) => leaves_nothing(toplevels@, *filters) && (e matches Refusal::NoMatch(text)
                && text@ == join(filters.flag_texts(), " "@)),
        },
{
    if filters.is_empty() {
        return Ok(());
    }
    for i in 0..toplevels.len()
        invariant
            filters.wf(),
            forall|j: int|
                0 <= j < i ==> !filters.passes(window_of(#[trigger] toplevels@[j])),
    {
        if filters.admits(Candidate::from(&toplevels[i])) {
            assert(filters.passes(window_of(toplevels@[i as int])));
            return Ok(());
        }
    }
    Err(Refusal::NoMatch(filters.describe()))
}

/// A positive number as a grid's side is written.
pub open spec fn grid_side(s: Seq<char>) -> Option<u32> {
    match parse_u32_spec(trim(s)) {
        Some(n) => if n >= 1 {
            Some(n)
        } else {
            None
        },
        None => None,
    }
}

/// The characters that stand between a grid's columns and rows.
pub open spec fn grid_marks() -> Seq<char> {
    seq!['x', 'X', '×']
}

/// The grid a text describes, or what is wrong with it.
pub open spec fn grid_of(s: Seq<char>) -> Result<(u32, u32), Seq<char>> {
    match split_once(s, grid_marks()) {
        None => Err("expected COLSxROWS, e.g. 4x3"@),
        Some((c, r)) => match grid_side(c) {
            None => Err("columns must be a positive integer"@),
            Some(cols) => match grid_side(r) {
                None => Err("rows must be a positive integer"@),
                Some(rows) => Ok((cols, rows)),
            },
        },
    }
}

fn side(s: &[char]) -> (r: Option<u32>)
    ensures
        r == grid_side(s@),
{
    let t = trim_chars(s);
    match parse_u32(t.as_slice()) {
        Some(n) => if n >= 1 {
            Some(n)
        } else {
            None
        },
        None => None,
    }
}

/// Parse a `COLSxROWS` grid spec (such as `4x3`).
pub fn parse_grid(s: &str) -> (r: Result<(u32, u32), String>)
    ensures
        match (r, grid_of(s@)) {
            (Ok(g), Ok(h)) => g == h,
            (Err(e), Err(t)) => e@ == t,
            _ => false,
        },
{
    let all = chars_of(s);
    let marks: [char; 3] = ['x', 'X', '×'];
    assert(marks@ =~= grid_marks());
    match split_once_chars(all.as_slice(), &marks) {
        None => Err(String::from_str("expected COLSxROWS, e.g. 4x3")),
        Some((c, r)) => match side(c.as_slice()) {
            None => Err(String::from_str("columns must be a positive integer")),
            Some(cols) => match side(r.as_slice()) {
                None => Err(String::from_str("rows must be a positive integer")),
                Some(rows) => Ok((cols, rows)),
            },
        },
    }
}

/// Whether an invocation is one a daemon could take on. A run without the GPU turns the
/// zero-copy path off for the whole process, which a daemon started with it cannot honour;
/// such a run shows its own overlay, as does one whose arguments will not survive the wire.
pub fn daemon_can_serve(no_gpu: bool, no_gpu_in_environment: bool, args: &[String]) -> (r: bool)
    ensures
        r == (!no_gpu && !no_gpu_in_environment && forall|i: int|
            0 <= i < args@.len() ==> encodable((#[trigger] args@[i])@)),
{
    !no_gpu && !no_gpu_in_environment && can_encode(args)
}

/// A grid that is written out reads back, its columns before its rows.
pub proof fn a_grid_reads_back(cols: u32, rows: u32, s: &str, r: Result<(u32, u32), String>)
    requires
        cols >= 1,
        rows >= 1,
        s@ == crate::text::decimal(cols as nat) + seq!['x'] + crate::text::decimal(rows as nat),
        call_ensures(parse_grid, (s,), r),
    ensures
        r == Ok::<(u32, u32), String>((cols, rows)),
{
    let (c, d) = (crate::text::decimal(cols as nat), crate::text::decimal(rows as nat));
    crate::text::decimal_reads_back(cols as nat);
    crate::text::decimal_reads_back(rows as nat);
    crate::text::trimmed_already(c);
    crate::text::trimmed_already(d);
    let marks = grid_marks();
    assert(marks[0] == 'x');
    assert forall|i: int| 0 <= i < c.len() implies !marks.contains(#[trigger] c[i]) by {
        assert(crate::text::is_digit(c[i]));
    }
    crate::capture::splits_at(c, 'x', d, marks);
}

/// A grid has at least one column and one row.
pub proof fn a_grid_has_tiles(s: &str, g: (u32, u32))
    requires
        call_ensures(parse_grid, (s,), Ok::<(u32, u32), String>(g)),
    ensures
        g.0 >= 1,
        g.1 >= 1,
{
}

/// A filter is refused where it asks for something and no window has it; a filter that asks for
/// nothing never is.
pub proof fn a_filter_that_leaves_something_is_accepted(
    toplevels: &[Toplevel],
    f: WindowFilters,
    r: Result<(), Refusal>,
    i: int,
)
    requires
        call_ensures(reject_empty_window_filter, (toplevels, &f), r),
    ensures
        0 <= i < toplevels@.len() && f.passes(window_of(toplevels@[i])) ==> r is Ok,
        f.app_ids@.len() == 0 && f.titles@.len() == 0 && f.pids@.len() == 0 && f.identifiers is None
            ==> r is Ok,
        f.app_ids@.len() > 0 && toplevels@.len() == 0 ==> r is Err,
{
}

} // verus!
