//! The chooser: it *answers*. It names the source that was picked and never touches it.

use crate::daemon::{Answer, Reply};
use crate::front::{
    leaves_nothing, reject_empty_window_filter, reject_hints_on_card, require_window_pids, Refusal,
};
use crate::hints::HintRow;
use crate::json::{json_document, Tree};
use crate::layout::View as Layout;
use crate::sources::{learned, process_in, process_of, Picked, Selection, WindowFilters};
use crate::text::join;
use crate::switcher::CycleKeys;
use crate::ui::{Live, Mode, Options, Order};
use crate::wl::Toplevel;
use vstd::prelude::*;
use vstd::string::*;
use vstd::utf8::*;

verus! {

/// How the picked source is written.
///
/// A value rather than a flag: the portal's contract gains a name instead of being the
/// nameless default, and a format a script asks for next is one more value.
#[derive(Clone, Copy, Debug, PartialEq, Eq, Structural)]
pub enum Format {
    /// `Window: <identifier>` or `Monitor: <name>`, the line the portal reads.
    Portal,
    /// One JSON object on one line, naming what a script can act on.
    Json,
}

/// `serde_json::Map`.
#[verifier::external_type_specification]
#[verifier::external_body]
#[verifier::reject_recursive_types(K)]
#[verifier::reject_recursive_types(V)]
pub struct ExJsonMap<K, V>(serde_json::Map<K, V>);

/// A value in a JSON object.
pub enum Member {
    Text(Seq<char>),
    Number(u32),
    /// Anything else.
    Other,
}

/// An object with nothing in it.
pub open spec fn no_members() -> Map<Seq<char>, Member> {
    Map::empty()
}

/// What a `serde_json::Map` holds, by key.
pub uninterp spec fn json_members(m: serde_json::Map<String, serde_json::Value>) -> Map<
    Seq<char>,
    Member,
>;

/// What `serde_json::Value` prints for the object with those members.
pub uninterp spec fn json_line(members: Map<Seq<char>, Member>) -> Seq<char>;

impl Member {
    /// The JSON value this is.
    pub open spec fn tree(self) -> Tree {
        match self {
            Member::Text(s) => Tree::Text(s),
            Member::Number(n) => Tree::Natural(n as u64),
            Member::Other => Tree::Null,
        }
    }
}

/// Only texts and numbers.
pub open spec fn plain(members: Map<Seq<char>, Member>) -> bool {
    forall|k: Seq<char>| members.contains_key(k) ==> !(#[trigger] members[k] is Other)
}

/// Read as JSON, `line` is an object with those members and no others.
pub open spec fn reads_back(line: Seq<char>, members: Map<Seq<char>, Member>) -> bool {
    match json_document(encode_utf8(line)) {
        Some(t) => forall|k: Seq<char>| #[trigger]
            t.member(k) == if members.contains_key(k) {
                Some(members[k].tree())
            } else {
                None
            },
        None => false,
    }
}

/// `serde_json::Map::new`: a map with nothing in it.
#[verifier::external_body]
fn json_object() -> (r: serde_json::Map<String, serde_json::Value>)
    ensures
        json_members(r) == no_members(),
{
    serde_json::Map::new()
}

/// `serde_json::Map::insert` of a text: it is under the key, in place of what was there.
#[verifier::external_body]
fn json_text(m: &mut serde_json::Map<String, serde_json::Value>, key: &str, value: &str)
    ensures
        json_members(*final(m)) == json_members(*old(m)).insert(key@, Member::Text(value@)),
{
    m.insert(key.to_string(), value.into());
}

/// `serde_json::Map::insert` of a number: it is under the key, in place of what was there.
#[verifier::external_body]
fn json_number(m: &mut serde_json::Map<String, serde_json::Value>, key: &str, value: u32)
    ensures
        json_members(*final(m)) == json_members(*old(m)).insert(key@, Member::Number(value)),
{
    m.insert(key.to_string(), value.into());
}

/// `serde_json::Value::to_string` of an object of texts and numbers: the compact form, which
/// depends on the members alone (they are printed by key) and holds no line feed (it has no
/// white space between its parts, and one in a text is escaped). `serde_json` reads the
/// members back from it.
#[verifier::external_body]
fn json_print(m: serde_json::Map<String, serde_json::Value>) -> (r: String)
    requires
        plain(json_members(m)),
    ensures
        r@ == json_line(json_members(m)),
        !r@.contains('\n'),
        reads_back(r@, json_members(m)),
{
    serde_json::Value::Object(m).to_string()
}

/// The process named beside a picked source, in what the compositor answers.
pub open spec fn pid_in(sel: Selection, pids: Option<&Vec<(String, u32)>>) -> Option<u32> {
    match pids {
        Some(a) => if sel.is_window {
            process_in(a@, sel.identifier@, 0)
        } else {
            None
        },
        None => None,
    }
}

/// The process behind the picked window, in what the compositor answers. Where nothing can
/// answer there is none: a field that cannot be read is merely one field fewer.
pub fn window_pid(sel: &Selection, answer: Option<&Vec<(String, u32)>>) -> (r: Option<u32>)
    ensures
        r == pid_in(*sel, answer),
{
    if !sel.is_window {
        return None;
    }
    match answer {
        None => None,
        Some(a) => process_of(a, sel.identifier.as_str()),
    }
}

/// The members of the object that names a picked source.
pub open spec fn members_of(p: Picked, pid: Option<u32>) -> Map<Seq<char>, Member> {
    if p.is_window {
        let window = no_members().insert("type"@, Member::Text("window"@)).insert(
            "identifier"@,
            Member::Text(p.identifier),
        ).insert("app-id"@, Member::Text(p.app_id)).insert("title"@, Member::Text(p.title));
        match pid {
            Some(n) => window.insert("pid"@, Member::Number(n)),
            None => window,
        }
    } else {
        no_members().insert("type"@, Member::Text("screen"@)).insert(
            "name"@,
            Member::Text(p.output),
        )
    }
}

/// The picked source as one JSON object on one line.
///
/// A script gets what it can act on: the app id and title that other tools take, the process
/// it can signal, the output name a screen is addressed by. `type` says which set is
/// present, and `pid` is absent rather than null when the compositor names none. The field
/// names are a contract: they may gain company, never change meaning. Whatever a title holds,
/// the line is one line, and reads back as what was picked.
pub fn json(sel: &Selection, pid: Option<u32>) -> (r: String)
    ensures
        r@ == json_line(members_of(sel@, pid)),
        !r@.contains('\n'),
        reads_back(r@, members_of(sel@, pid)),
{
    let mut o = json_object();
    if sel.is_window {
        json_text(&mut o, "type", "window");
        json_text(&mut o, "identifier", sel.identifier.as_str());
        json_text(&mut o, "app-id", sel.app_id.as_str());
        json_text(&mut o, "title", sel.title.as_str());
        if let Some(pid) = pid {
            json_number(&mut o, "pid", pid);
        }
    } else {
        json_text(&mut o, "type", "screen");
        json_text(&mut o, "name", sel.output.as_str());
    }
    json_print(o)
}

/// The line that names the picked source.
pub fn answer(sel: &Selection, format: Format, pids: Option<&Vec<(String, u32)>>) -> (r: String)
    ensures
        match format {
            Format::Portal => r@ == sel.token@,
            Format::Json => {
                let members = members_of(sel@, pid_in(*sel, pids));
                r@ == json_line(members) && !r@.contains('\n') && reads_back(r@, members)
            },
        },
{
    match format {
        Format::Portal => sel.token.clone(),
        Format::Json => json(sel, window_pid(sel, pids)),
    }
}

/// What a command line asks of the chooser.
pub struct Args {
    pub windows: bool,
    pub outputs: bool,
    pub include_system: bool,
    pub filters: WindowFilters,
    pub layout: Layout,
    pub hints: Option<HintRow>,
    pub grid: Option<(u32, u32)>,
    pub order: Order,
}

/// Which kinds of source a command line asks for: windows, else screens, else both.
pub open spec fn mode_of(windows: bool, outputs: bool) -> Mode {
    if windows {
        Mode::Windows
    } else if outputs {
        Mode::Outputs
    } else {
        Mode::All
    }
}

/// The overlay a command line asks for. A grid sizes the card and nothing else, and hints
/// need the keyboard, so that neither looks applied where it has no effect.
pub fn options(args: Args) -> (r: Result<Options, Refusal>)
    ensures
        match r {
            Ok(o) => {
                &&& !(args.hints is Some && args.layout == Layout::Card)
                &&& !(args.grid is Some && args.layout != Layout::Card)
                &&& o == Options {
                    mode: mode_of(args.windows, args.outputs),
                    show_system: args.include_system,
                    grid: args.grid,
                    view: args.layout,
                    hold: false,
                    live: Live::All,
                    order: args.order,
                    window_filters: args.filters,
                    hints: args.hints,
                    auto_select: false,
                    cycle: o.cycle,
                }
                &&& o.cycle@ == (("Tab"@, false), ("Tab"@, true))
            },
            Err(e) => if args.hints is Some && args.layout == Layout::Card {
                e is HintsNeedKeyboard
            } else {
                args.grid is Some && args.layout != Layout::Card && e is GridNeedsCard
            },
        },
{
    if let Err(e) = reject_hints_on_card(args.hints, args.layout) {
        return Err(e);
    }
    if args.grid.is_some() && args.layout != Layout::Card {
        return Err(Refusal::GridNeedsCard);
    }
    let mode = if args.windows {
        Mode::Windows
    } else if args.outputs {
        Mode::Outputs
    } else {
        Mode::All
    };
    Ok(
        Options {
            mode,
            show_system: args.include_system,
            grid: args.grid,
            view: args.layout,
            hold: false,
            live: Live::All,
            order: args.order,
            window_filters: args.filters,
            hints: args.hints,
            auto_select: false,
            cycle: CycleKeys::default(),
        },
    )
}

/// Whether something has to be settled with the compositor before the overlay comes up: the
/// process behind each window, or whether a windows-only run is emptied by its filter.
/// Anything else opens the overlay straight away, paying no extra connection.
pub open spec fn settles(f: WindowFilters, mode: Mode) -> bool {
    f.pids@.len() > 0 || (mode == Mode::Windows && !(f.app_ids@.len() == 0 && f.titles@.len() == 0
        && f.pids@.len() == 0 && f.identifiers is None))
}

/// Whether something has to be settled with the compositor before the overlay comes up.
pub fn must_settle(filters: &WindowFilters, mode: Mode) -> (r: bool)
    ensures
        r == settles(*filters, mode),
{
    filters.needs_pids() || (mode == Mode::Windows && !filters.is_empty())
}

/// Settle the filters that cannot be applied silently, with the windows that are open and
/// what the compositor answers about their processes.
pub fn preflight(
    filters: &mut WindowFilters,
    mode: Mode,
    toplevels: &[Toplevel],
    answer: Option<&Vec<(String, u32)>>,
) -> (r: Result<(), Refusal>)
    requires
        old(filters).wf(),
    ensures
        final(filters).wf(),
        final(filters).app_ids == old(filters).app_ids,
        final(filters).titles == old(filters).titles,
        final(filters).pids == old(filters).pids,
        final(filters).identifiers == old(filters).identifiers,
        final(filters).processes@ == if settles(*old(filters), mode) && old(filters).asks(
            toplevels@,
        ) && answer is Some {
            learned(
                old(filters).processes@,
                toplevels@,
                answer->0@,
                toplevels@.len() as int,
            )
        } else {
            old(filters).processes@
        },
        match r {
            Ok(()) => !settles(*old(filters), mode) || (!(old(filters).asks(toplevels@)
                && answer is None) && (mode == Mode::Windows ==> !leaves_nothing(
                toplevels@,
                *final(filters),
            ))),
            Err(e) => settles(*old(filters), mode) && if old(filters).asks(toplevels@)
                && answer is None {
                e is PidUnsupported
            } else {
                mode == Mode::Windows && leaves_nothing(toplevels@, *final(filters)) && (
                e matches Refusal::NoMatch(text) && text@ == join(
                    final(filters).flag_texts(),
                    " "@,
                ))
            },
        },
{
    if !must_settle(filters, mode) {
        return Ok(());
    }
    if let Err(e) = require_window_pids(filters, toplevels, answer) {
        return Err(e);
    }
    if mode == Mode::Windows {
        return reject_empty_window_filter(toplevels, filters);
    }
    Ok(())
}

/// What is left to do once a daemon was asked.
pub enum Handed {
    /// Print this line: whatever the daemon answered, verbatim.
    Print(String),
    /// Say why, where there is a reason, and exit with this status.
    Exit { reason: Option<String>, code: i32 },
    /// Show the overlay in this process: no daemon is listening, or (`busy`) it is showing
    /// another. The portal is waiting for an answer and must not be told nothing.
    Here { busy: bool },
}

/// What becomes of a run that a daemon was asked for; `None` where none is listening.
pub fn after_daemon(reply: Option<Reply>) -> (r: Handed)
    ensures
        match reply {
            None => r == (Handed::Here { busy: false }),
            Some(Reply::Busy) => r == (Handed::Here { busy: true }),
            Some(Reply::Chosen(line)) => r == Handed::Print(line),
            Some(Reply::Done) => r matches Handed::Print(line) && line@.len() == 0,
            Some(Reply::Cancelled) => r == (Handed::Exit { reason: None, code: 1 }),
            Some(Reply::Failed(why)) => r == (Handed::Exit { reason: Some(why), code: 2 }),
        },
{
    match reply {
        None => Handed::Here { busy: false },
        Some(Reply::Busy) => Handed::Here { busy: true },
        Some(Reply::Chosen(line)) => Handed::Print(line),
        Some(Reply::Done) => Handed::Print(String::new()),
        Some(Reply::Cancelled) => Handed::Exit { reason: None, code: 1 },
        Some(Reply::Failed(why)) => Handed::Exit { reason: Some(why), code: 2 },
    }
}

/// Whether a request is a daemon's to serve: a client settles this before asking, so only a
/// hand-sent line is refused.
pub fn daemon_may_run(no_daemon: bool, no_gpu: bool, doctor: bool, bench: bool) -> (r: bool)
    ensures
        r == (!no_daemon && !no_gpu && !doctor && !bench),
{
    !no_daemon && !no_gpu && !doctor && !bench
}

/// What the daemon answers for a run: the line that names what was picked travels back to the
/// client, which prints it.
pub fn serve(ran: Result<Option<String>, String>) -> (r: Reply)
    ensures
        r@ == match ran {
            Ok(Some(line)) => Answer::Chosen(line@),
            Ok(None) => Answer::Cancelled,
            Err(reason) => Answer::Failed(reason@),
        },
{
    match ran {
        Ok(Some(line)) => Reply::Chosen(line),
        Ok(None) => Reply::Cancelled,
        Err(reason) => Reply::Failed(reason),
    }
}

/// Read as JSON, the answer names what was picked: a window by its identifier, its application
/// and its title, and by its process where that is known; a screen by its name.
pub proof fn the_answer_names_the_pick(sel: Selection, pid: Option<u32>, r: String)
    requires
        call_ensures(json, (&sel, pid), r),
    ensures
        json_document(encode_utf8(r@)) matches Some(t) && {
            &&& sel.is_window ==> {
                &&& t.member("type"@) == Some(Tree::Text("window"@))
                &&& t.member("identifier"@) == Some(Tree::Text(sel.identifier@))
                &&& t.member("app-id"@) == Some(Tree::Text(sel.app_id@))
                &&& t.member("title"@) == Some(Tree::Text(sel.title@))
                &&& t.member("name"@) is None
                &&& t.member("pid"@) == (match pid {
                    Some(n) => Some(Tree::Natural(n as u64)),
                    None => None,
                })
            }
            &&& !sel.is_window ==> {
                &&& t.member("type"@) == Some(Tree::Text("screen"@))
                &&& t.member("name"@) == Some(Tree::Text(sel.output@))
                &&& t.member("identifier"@) is None
                &&& t.member("pid"@) is None
            }
        },
{
    reveal_strlit("type");
    reveal_strlit("identifier");
    reveal_strlit("app-id");
    reveal_strlit("title");
    reveal_strlit("pid");
    reveal_strlit("name");
    let (a, b, c, d, e, f) = (
        "type"@,
        "identifier"@,
        "app-id"@,
        "title"@,
        "pid"@,
        "name"@,
    );
    assert(a[0] == 't' && f[0] == 'n');
    assert(a.len() == 4 && b.len() == 10 && c.len() == 6 && d.len() == 5 && e.len() == 3 && f.len()
        == 4);
    let m = members_of(sel@, pid);
    let t = json_document(encode_utf8(r@))->0;
    assert(sel@.identifier == sel.identifier@ && sel@.output == sel.output@);
    if sel.is_window {
        assert(m.contains_key(a) && m[a] == Member::Text("window"@));
        assert(m.contains_key(b) && m[b] == Member::Text(sel.identifier@));
        assert(m.contains_key(c) && m[c] == Member::Text(sel.app_id@));
        assert(m.contains_key(d) && m[d] == Member::Text(sel.title@));
        assert(m.contains_key(e) <==> pid is Some);
        assert(!m.contains_key(f));
    } else {
        assert(m.contains_key(a) && m[a] == Member::Text("screen"@));
        assert(m.contains_key(f) && m[f] == Member::Text(sel.output@));
        assert(!m.contains_key(b) && !m.contains_key(e));
    }
    assert(t.member(a) == Some(m[a].tree()));
}

/// Only windows have a process, and it is the one that the answer names first for the window.
pub proof fn only_windows_have_a_process(sel: Selection, answer: Vec<(String, u32)>, r: Option<u32>)
    requires
        call_ensures(window_pid, (&sel, Some(&answer)), r),
    ensures
        !sel.is_window ==> r is None,
        r matches Some(p) ==> exists|i: int|
            0 <= i < answer@.len() && (#[trigger] answer@[i]).0@ == sel.identifier@ && answer@[i].1
                == p,
{
    named_process(answer@, sel.identifier@, 0);
}

proof fn named_process(answer: Seq<(String, u32)>, id: Seq<char>, k: int)
    requires
        0 <= k,
    ensures
        process_in(answer, id, k) matches Some(p) ==> exists|i: int|
            k <= i < answer.len() && (#[trigger] answer[i]).0@ == id && answer[i].1 == p,
    decreases answer.len() - k,
{
    if k < answer.len() {
        if answer[k].0@ == id {
            assert(answer[k].1 == process_in(answer, id, k)->0);
        } else {
            named_process(answer, id, k + 1);
        }
    }
}

/// The flags choose what is offered: windows, screens, or both where neither is asked for.
pub proof fn the_flags_choose_what_is_offered(args: Args, o: Options)
    requires
        call_ensures(options, (args,), Ok::<Options, Refusal>(o)),
    ensures
        o.mode == Mode::Windows <==> args.windows,
        o.mode == Mode::Outputs <==> args.outputs && !args.windows,
        o.mode == Mode::All <==> !args.windows && !args.outputs,
        !o.hold && !o.auto_select,
        o.grid is Some ==> o.view == Layout::Card,
        o.hints is Some ==> o.view != Layout::Card,
{
}

/// What the daemon says becomes what is printed and the exit status, and without an answer from
/// it the chooser shows itself.
pub proof fn without_the_daemon_the_chooser_shows_itself(reply: Option<Reply>, r: Handed)
    requires
        call_ensures(after_daemon, (reply,), r),
    ensures
        r is Here <==> reply is None || reply == Some(Reply::Busy),
        r matches Handed::Exit { reason, code } ==> (code == 1 <==> reason is None) && (code == 2
            <==> reason is Some),
        r is Print <==> (reply matches Some(Reply::Chosen(_))) || reply == Some(Reply::Done),
{
}

/// The daemon's chooser answers with what was picked, with a cancellation or with the failure.
pub proof fn what_was_picked_is_handed_on(ran: Result<Option<String>, String>, r: Reply, h: Handed)
    requires
        call_ensures(serve, (ran,), r),
        call_ensures(after_daemon, (Some(r),), h),
    ensures
        ran matches Ok(Some(line)) ==> (h matches Handed::Print(l) && l@ == line@),
        ran matches Ok(None) ==> (h matches Handed::Exit { reason, code } && reason is None && code
            == 1),
        ran matches Err(why) ==> (h matches Handed::Exit { reason, code } && code == 2 && (reason
            matches Some(w) && w@ == why@)),
{
}

/// The windows are looked at beforehand where a process is asked for, or where nothing but
/// windows is shown and any of them is asked for; never for a filter that asks for nothing.
pub proof fn filters_are_settled_where_they_matter(f: WindowFilters, mode: Mode, r: bool)
    requires
        call_ensures(must_settle, (&f, mode), r),
    ensures
        f.pids@.len() > 0 ==> r,
        mode == Mode::Windows && (f.app_ids@.len() > 0 || f.titles@.len() > 0) ==> r,
        mode == Mode::Windows && f.identifiers is Some ==> r,
        mode != Mode::Windows && f.pids@.len() == 0 ==> !r,
        f.app_ids@.len() == 0 && f.titles@.len() == 0 && f.pids@.len() == 0 && f.identifiers is None
            ==> !r,
{
}

} // verus!
