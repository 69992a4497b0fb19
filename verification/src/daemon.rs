//! The control socket's lines, and what each side makes of them.
//!
//! An overlay costs about ninety milliseconds to put on screen, and nearly all of it is
//! initialisation the run throws away. A daemon pays that once and serves each invocation
//! over a socket; when none is listening, the invocation shows the overlay itself.
//!
//! The protocol is one line of text: `show` (for the switcher) or `choose` (for the chooser)
//! followed by the invocation's arguments, `ping`, or `quit`. The daemon answers one line,
//! `ok`, `ok <line>`, `cancel`, `busy` or `err <reason>`, which the client turns back into what
//! it prints and its own exit status.

use crate::icons::{below, join_path};
use crate::text::{
    char_views, chars_of, is_space, join, join_strings, push_char, slice_chars, spells, split,
    split_chars, split_is_not_empty, split_undoes_join, string_of, trim, trim_chars, trim_end,
    trim_start, trimmed_already, views,
};
use vstd::prelude::*;
use vstd::string::*;

verus! {

/// Separates the arguments inside a `show` line.
///
/// A window title is the application's to write and may hold anything a shell would quote,
/// so arguments cannot be split on white space. The ASCII unit separator is the one byte a
/// command line will not contain; a run whose arguments do is not handed over.
pub const SEP: char = '\x1f';

/// Path of the per-user control socket.
pub fn socket_path(runtime_dir: &str) -> (r: String)
    ensures
        r@ == below(runtime_dir@, "wlr-switcher.sock"@),
{
    join_path(runtime_dir, "wlr-switcher.sock")
}

/// Which front-end a run is for: they are one overlay, and differ in what they do with the
/// pick.
#[derive(Clone, Copy, Debug, PartialEq, Eq, Structural)]
pub enum Tool {
    /// The switcher, which acts on it.
    Switch,
    /// The chooser, which names it.
    Choose,
}

/// The command that asks for a run.
pub open spec fn verb(tool: Tool) -> Seq<char> {
    match tool {
        Tool::Switch => "show"@,
        Tool::Choose => "choose"@,
    }
}

/// What a client asked for.
#[derive(Debug)]
pub enum Request {
    /// Show the switcher's overlay for these arguments.
    Show(Vec<String>),
    /// Show the chooser's overlay for these arguments.
    Choose(Vec<String>),
    /// Is anyone there?
    Ping,
    /// Stop the daemon.
    Quit,
}

/// What a client asked for.
pub enum Asked {
    Show(Seq<Seq<char>>),
    Choose(Seq<Seq<char>>),
    Ping,
    Quit,
}

impl View for Request {
    type V = Asked;

    open spec fn view(&self) -> Asked {
        match self {
            Request::Show(args) => Asked::Show(views(args@)),
            Request::Choose(args) => Asked::Choose(views(args@)),
            Request::Ping => Asked::Ping,
            Request::Quit => Asked::Quit,
        }
    }
}

/// Carriage return or line feed.
pub open spec fn ends_line(c: char) -> bool {
    c == '\r' || c == '\n'
}

/// `s` without the line ends at its end.
pub open spec fn unended(s: Seq<char>) -> Seq<char>
    decreases s.len(),
{
    if s.len() > 0 && ends_line(s.last()) {
        unended(s.drop_last())
    } else {
        s
    }
}

fn without_end(s: &[char]) -> (r: Vec<char>)
    ensures
        r@ == unended(s@),
{
    let mut n: usize = s.len();
    assert(s@.take(n as int) =~= s@);
    while n > 0 && (s[n - 1] == '\r' || s[n - 1] == '\n')
        invariant
            n <= s@.len(),
            unended(s@.take(n as int)) == unended(s@),
        decreases n,
    {
        assert(s@.take(n as int).drop_last() =~= s@.take(n - 1));
        n = n - 1;
    }
    let kept = slice_chars(s, 0, n);
    assert(kept@ =~= s@.take(n as int));
    kept
}

/// What a request line asks for: its first field is the command, the others are arguments.
pub open spec fn asked(line: Seq<char>) -> Result<Asked, Seq<char>> {
    let fields = split(unended(line), SEP);
    let verb = trim(fields[0]);
    if verb == "show"@ {
        Ok(Asked::Show(fields.skip(1)))
    } else if verb == "choose"@ {
        Ok(Asked::Choose(fields.skip(1)))
    } else if verb == "ping"@ {
        Ok(Asked::Ping)
    } else if verb == "quit"@ || verb == "exit"@ {
        Ok(Asked::Quit)
    } else if verb.len() == 0 {
        Err("empty command"@)
    } else {
        Err("unknown command: "@ + verb)
    }
}

impl Request {
    /// Read a request line.
    pub fn parse(line: &str) -> (r: Result<Request, String>)
        ensures
            match (r, asked(line@)) {
                (Ok(q), Ok(a)) => q@ == a,
                (Err(e), Err(t)) => e@ == t,
                _ => false,
            },
    {
        let all = chars_of(line);
        let kept = without_end(all.as_slice());
        let fields = split_chars(kept.as_slice(), SEP);
        let ghost f = split(unended(line@), SEP);
        proof {
            split_is_not_empty(kept@, SEP);
            assert(char_views(fields@).len() == fields@.len());
            assert(char_views(fields@)[0] == fields@[0]@);
        }
        let verb = trim_chars(fields[0].as_slice());
        let show = spells(verb.as_slice(), "show");
        if show || spells(verb.as_slice(), "choose") {
            let mut args: Vec<String> = Vec::new();
            let count: usize = fields.len();
            for i in 1..count
                invariant
                    count == fields@.len(),
                    char_views(fields@) == f,
                    args@.len() == i - 1,
                    forall|j: int| 0 <= j < i - 1 ==> (#[trigger] args@[j])@ == f[j + 1],
            {
                assert(char_views(fields@)[i as int] == fields@[i as int]@);
                args.push(string_of(fields[i].as_slice()));
            }
            assert(views(args@) =~= f.skip(1));
            if show {
                Ok(Request::Show(args))
            } else {
                Ok(Request::Choose(args))
            }
        } else if spells(verb.as_slice(), "ping") {
            Ok(Request::Ping)
        } else if spells(verb.as_slice(), "quit") || spells(verb.as_slice(), "exit") {
            Ok(Request::Quit)
        } else if verb.len() == 0 {
            Err(String::from_str("empty command"))
        } else {
            let mut e = String::from_str("unknown command: ");
            let v = string_of(verb.as_slice());
            e.append(v.as_str());
            Err(e)
        }
    }
}

/// What the daemon answers with, and what the client makes of it.
#[derive(Debug, PartialEq)]
pub enum Reply {
    /// The run did what it was asked: a window was focused, or there was nothing to focus
    /// but no error either.
    Done,
    /// A source was picked; the line names it, and is the client's to print.
    Chosen(String),
    /// The user backed out of the overlay.
    Cancelled,
    /// An overlay was already up. Re-pressing the keybinding while the switcher is on screen
    /// is a no-op, not a second overlay.
    Busy,
    /// The run was refused or failed; the reason is already in the user's language.
    Failed(String),
}

/// What the daemon answers with.
pub enum Answer {
    Done,
    Chosen(Seq<char>),
    Cancelled,
    Busy,
    Failed(Seq<char>),
}

impl View for Reply {
    type V = Answer;

    open spec fn view(&self) -> Answer {
        match self {
            Reply::Done => Answer::Done,
            Reply::Chosen(line) => Answer::Chosen(line@),
            Reply::Cancelled => Answer::Cancelled,
            Reply::Busy => Answer::Busy,
            Reply::Failed(why) => Answer::Failed(why@),
        }
    }
}

/// A text with its line feeds made spaces.
pub open spec fn on_one_line(s: Seq<char>) -> Seq<char> {
    Seq::new(
        s.len(),
        |i: int|
            if s[i] == '\n' {
                ' '
            } else {
                s[i]
            },
    )
}

/// The line an answer is sent as.
pub open spec fn line_of(a: Answer) -> Seq<char> {
    match a {
        Answer::Done => "ok"@,
        Answer::Chosen(line) => "ok "@ + on_one_line(line),
        Answer::Cancelled => "cancel"@,
        Answer::Busy => "busy"@,
        Answer::Failed(why) => "err "@ + on_one_line(why),
    }
}

/// The answer a line is. What a chosen line holds is kept as it is, but for the line's end.
pub open spec fn answer_of(line: Seq<char>) -> Answer {
    let t = trim(line);
    let whole = unended(line);
    if t == "ok"@ {
        Answer::Done
    } else if t == "cancel"@ {
        Answer::Cancelled
    } else if t == "busy"@ {
        Answer::Busy
    } else if whole.len() >= 3 && whole.take(3) == "ok "@ {
        Answer::Chosen(whole.skip(3))
    } else if t.len() >= 4 && t.take(4) == "err "@ {
        Answer::Failed(trim(t.skip(4)))
    } else {
        Answer::Failed(trim(t))
    }
}

fn flattened(s: &str) -> (r: String)
    ensures
        r@ == on_one_line(s@),
{
    let chars = chars_of(s);
    let mut flat: Vec<char> = Vec::new();
    for i in 0..chars.len()
        invariant
            flat@ == on_one_line(chars@).take(i as int),
    {
        let c = if chars[i] == '\n' {
            ' '
        } else {
            chars[i]
        };
        flat.push(c);
        assert(on_one_line(chars@).take(i + 1) =~= on_one_line(chars@).take(i as int).push(c));
    }
    assert(on_one_line(chars@).take(chars@.len() as int) =~= on_one_line(chars@));
    string_of(flat.as_slice())
}

impl Reply {
    /// The line this is sent as. A reason spanning lines would be read back as several
    /// replies.
    pub fn to_line(&self) -> (r: String)
        ensures
            r@ == line_of(self@),
    {
        match self {
            Reply::Done => String::from_str("ok"),
            Reply::Cancelled => String::from_str("cancel"),
            Reply::Busy => String::from_str("busy"),
            Reply::Chosen(line) => {
                let mut out = String::from_str("ok ");
                let line = flattened(line.as_str());
                out.append(line.as_str());
                out
            },
            Reply::Failed(why) => {
                let mut out = String::from_str("err ");
                let reason = flattened(why.as_str());
                out.append(reason.as_str());
                out
            },
        }
    }

    /// Read a reply line.
    pub fn parse(line: &str) -> (r: Reply)
        ensures
            r@ == answer_of(line@),
    {
        let all = chars_of(line);
        let t = trim_chars(all.as_slice());
        let n: usize = t.len();
        if spells(t.as_slice(), "ok") {
            Reply::Done
        } else if spells(t.as_slice(), "cancel") {
            Reply::Cancelled
        } else if spells(t.as_slice(), "busy") {
            Reply::Busy
        } else {
            let whole = without_end(all.as_slice());
            let m: usize = whole.len();
            if m >= 3 {
                let head = slice_chars(whole.as_slice(), 0, 3);
                assert(head@ =~= whole@.take(3));
                if spells(head.as_slice(), "ok ") {
                    let rest = slice_chars(whole.as_slice(), 3, m);
                    assert(rest@ =~= whole@.skip(3));
                    return Reply::Chosen(string_of(rest.as_slice()));
                }
            }
            let mut from: usize = 0;
            if n >= 4 {
                let head = slice_chars(t.as_slice(), 0, 4);
                assert(head@ =~= t@.take(4));
                if spells(head.as_slice(), "err ") {
                    from = 4;
                }
            }
            let rest = slice_chars(t.as_slice(), from, n);
            assert(rest@ =~= t@.skip(from as int));
            assert(t@.skip(0) =~= t@);
            let reason = trim_chars(rest.as_slice());
            Reply::Failed(string_of(reason.as_slice()))
        }
    }

    /// The exit status a one-shot run would have ended on: 0 for a switch (and for a
    /// keybinding pressed twice, which does nothing), 1 for a cancel, 2 for a failure.
    pub fn exit_code(&self) -> (r: i32)
        ensures
            r == match self@ {
                Answer::Done | Answer::Chosen(_) | Answer::Busy => 0i32,
                Answer::Cancelled => 1i32,
                Answer::Failed(_) => 2i32,
            },
    {
        match self {
            Reply::Done | Reply::Chosen(_) | Reply::Busy => 0,
            Reply::Cancelled => 1,
            Reply::Failed(_) => 2,
        }
    }
}

/// A text that holds none of the characters that end a field or the line.
pub open spec fn encodable(s: Seq<char>) -> bool {
    forall|i: int| 0 <= i < s.len() ==> #[trigger] s[i] != SEP && !ends_line(s[i])
}

/// Whether these arguments survive the wire.
///
/// An argument holding a separator (or a line end) would come out of the daemon's parser as
/// two. Vanishingly unlikely in a command line, and showing the overlay here answers the
/// same question, slower but right.
pub fn can_encode(args: &[String]) -> (r: bool)
    ensures
        r == forall|i: int| 0 <= i < args@.len() ==> encodable((#[trigger] args@[i])@),
{
    for i in 0..args.len()
        invariant
            forall|j: int| 0 <= j < i ==> encodable((#[trigger] args@[j])@),
    {
        let chars = chars_of(args[i].as_str());
        for k in 0..chars.len()
            invariant
                i < args@.len(),
                chars@ == args@[i as int]@,
                forall|m: int|
                    0 <= m < k ==> #[trigger] chars@[m] != SEP && !ends_line(chars@[m]),
        {
            if chars[k] == SEP || chars[k] == '\n' || chars[k] == '\r' {
                assert(!encodable(args@[i as int]@)) by {
                    assert(args@[i as int]@[k as int] == SEP || ends_line(
                        args@[i as int]@[k as int],
                    ));
                }
                return false;
            }
        }
    }
    true
}

/// The line that asks for a run with those arguments.
pub open spec fn run_line(tool: Tool, args: Seq<Seq<char>>) -> Seq<char> {
    join(seq![verb(tool)] + args, seq![SEP]).push('\n')
}

/// The line that asks for a run with these arguments.
pub fn request_line(tool: Tool, args: &Vec<String>) -> (r: String)
    ensures
        r@ == run_line(tool, views(args@)),
{
    let mut parts: Vec<String> = Vec::new();
    let first = match tool {
        Tool::Switch => "show",
        Tool::Choose => "choose",
    };
    parts.push(String::from_str(first));
    for i in 0..args.len()
        invariant
            parts@.len() == i + 1,
            parts@[0]@ == verb(tool),
            forall|j: int| 0 <= j < i ==> (#[trigger] parts@[j + 1]) == args@[j],
    {
        parts.push(args[i].clone());
    }
    assert(views(parts@) =~= seq![verb(tool)] + views(args@)) by {
        assert forall|k: int| 0 <= k < parts@.len() implies views(parts@)[k] == (seq![verb(tool)]
            + views(args@))[k] by {
            if k > 0 {
                assert(parts@[(k - 1) + 1] == args@[k - 1]);
            }
        }
    }
    let mut sep = String::new();
    push_char(&mut sep, SEP);
    assert(sep@ =~= seq![SEP]);
    let mut line = join_strings(&parts, sep.as_str());
    push_char(&mut line, '\n');
    line
}

/// What the client makes of what came back: a daemon that went away without a word is told
/// apart from one that answered.
pub fn reply_from(text: Option<&str>) -> (r: Option<Reply>)
    ensures
        match text {
            None => r is None,
            Some(t) => if trim(t@).len() == 0 {
                r is None
            } else {
                r matches Some(reply) && reply@ == answer_of(t@)
            },
        },
{
    match text {
        None => None,
        Some(t) => {
            let all = chars_of(t);
            if trim_chars(all.as_slice()).len() == 0 {
                None
            } else {
                Some(Reply::parse(t))
            }
        },
    }
}

/// What the daemon does with a request.
pub enum Served {
    /// Answer, and wait for the next client.
    Answer(Reply),
    /// Answer, and stop.
    Stop(Reply),
    /// Show the overlay for these arguments, and answer with what comes of it. Everything
    /// that piled up meanwhile is answered with `busy`.
    Show(Tool, Vec<String>),
}

/// What the daemon does with a request, or with what could not be read as one.
pub fn serve(request: Result<Request, String>) -> (r: Served)
    ensures
        match request {
            Err(why) => r == Served::Answer(Reply::Failed(why)),
            Ok(Request::Ping) => r == Served::Answer(Reply::Done),
            Ok(Request::Quit) => r == Served::Stop(Reply::Done),
            Ok(Request::Show(args)) => r == Served::Show(Tool::Switch, args),
            Ok(Request::Choose(args)) => r == Served::Show(Tool::Choose, args),
        },
{
    match request {
        Err(why) => Served::Answer(Reply::Failed(why)),
        Ok(Request::Ping) => Served::Answer(Reply::Done),
        Ok(Request::Quit) => Served::Stop(Reply::Done),
        Ok(Request::Show(args)) => Served::Show(Tool::Switch, args),
        Ok(Request::Choose(args)) => Served::Show(Tool::Choose, args),
    }
}

/// A joined line of fields that hold no line end ends in none.
proof fn joined_ends_no_line(parts: Seq<Seq<char>>)
    requires
        parts.len() > 0,
        forall|i: int| 0 <= i < parts.len() ==> encodable(#[trigger] parts[i]),
        parts[0].len() > 0,
    ensures
        join(parts, seq![SEP]).len() > 0,
        !ends_line(join(parts, seq![SEP]).last()),
    decreases parts.len(),
{
    let whole = join(parts, seq![SEP]);
    if parts.len() == 1 {
        assert(encodable(parts[0]));
    } else {
        let last = parts.last();
        assert(encodable(parts[parts.len() - 1]));
        if last.len() > 0 {
            assert(whole.last() == last.last());
        } else {
            assert(whole.last() == SEP);
        }
    }
}

/// Whatever the arguments are, if they can be encoded they come out of the daemon's parser
/// as they went in.
pub proof fn a_request_reads_back(tool: Tool, args: Seq<Seq<char>>)
    requires
        forall|i: int| 0 <= i < args.len() ==> encodable(#[trigger] args[i]),
    ensures
        asked(run_line(tool, args)) == Ok::<Asked, Seq<char>>(
            match tool {
                Tool::Switch => Asked::Show(args),
                Tool::Choose => Asked::Choose(args),
            },
        ),
{
    reveal_strlit("show");
    reveal_strlit("choose");
    let parts = seq![verb(tool)] + args;
    let whole = join(parts, seq![SEP]);
    let line = run_line(tool, args);
    assert("show"@ =~= seq!['s', 'h', 'o', 'w']);
    assert("choose"@ =~= seq!['c', 'h', 'o', 'o', 's', 'e']);
    assert forall|i: int| 0 <= i < parts.len() implies encodable(#[trigger] parts[i]) by {
        if i > 0 {
            assert(parts[i] == args[i - 1]);
        }
    }
    joined_ends_no_line(parts);
    assert(line.drop_last() =~= whole);
    assert(unended(line) == unended(whole));
    assert(unended(whole) == whole);
    assert forall|i: int| 0 <= i < parts.len() implies !(#[trigger] parts[i]).contains(SEP) by {
        assert(encodable(parts[i]));
    }
    split_undoes_join(parts, SEP);
    trimmed_already(verb(tool));
    assert(parts.skip(1) =~= args);
}

/// The end of a text that has something but white space after a prefix is trimmed as the
/// rest is.
proof fn trimming_after_a_prefix(a: Seq<char>, b: Seq<char>)
    requires
        trim_end(b).len() > 0,
    ensures
        trim_end(a + b) == a + trim_end(b),
    decreases b.len(),
{
    if b.len() > 0 && is_space(b.last()) {
        assert((a + b).drop_last() =~= a + b.drop_last());
        trimming_after_a_prefix(a, b.drop_last());
    }
}

/// What is left of a text that is trimmed at its start, where something is.
proof fn something_is_left(b: Seq<char>)
    requires
        trim(b).len() > 0,
    ensures
        trim_end(b).len() > 0,
        trim(trim_end(b)) == trim(b),
    decreases b.len(),
{
    if b.len() > 0 && is_space(b.last()) {
        trim_start_of_shorter(b);
        something_is_left(b.drop_last());
    } else {
        assert(trim_end(b) == b);
    }
}

/// Trimming both ends does not mind a space more at the end.
proof fn trim_start_of_shorter(b: Seq<char>)
    requires
        b.len() > 0,
        is_space(b.last()),
    ensures
        trim(b) == trim(b.drop_last()),
    decreases b.len(),
{
    if is_space(b[0]) {
        if b.len() == 1 {
            assert(b.skip(1) =~= Seq::<char>::empty());
            assert(b.drop_last() =~= Seq::<char>::empty());
            assert(trim_start(b) == trim_start(b.skip(1)));
        } else {
            assert(b.skip(1).drop_last() =~= b.drop_last().skip(1));
            trim_start_of_shorter(b.skip(1));
        }
    } else {
        assert(trim_start(b) == b);
        if b.len() > 1 {
            assert(trim_start(b.drop_last()) == b.drop_last());
        }
    }
}

/// Without its end, a line that starts otherwise still does not start as a chosen one.
proof fn starts_with_no_ok(line: Seq<char>)
    requires
        line.len() > 0,
        line[0] == 'e',
    ensures
        unended(line).len() >= 3 ==> unended(line).take(3) != "ok "@,
    decreases line.len(),
{
    reveal_strlit("ok ");
    if ends_line(line.last()) {
        starts_with_no_ok(line.drop_last());
    } else {
        assert("ok "@[0] == 'o');
    }
}

/// A reply reads back as what was sent: a chosen line as it is, and a reason as its text on
/// one line without the white space around it. A chosen line ends in no line end and a reason
/// has something but white space in it.
pub proof fn a_reply_reads_back(a: Answer)
    requires
        a matches Answer::Failed(why) ==> trim(on_one_line(why)).len() > 0,
        a matches Answer::Chosen(line) ==> trim(line).len() > 0 && !line.contains('\n')
            && !ends_line(line.last()),
    ensures
        answer_of(line_of(a)) == match a {
            Answer::Failed(why) => Answer::Failed(trim(on_one_line(why))),
            _ => a,
        },
{
    reveal_strlit("ok");
    reveal_strlit("cancel");
    reveal_strlit("busy");
    reveal_strlit("err ");
    reveal_strlit("ok ");
    match a {
        Answer::Chosen(text) => {
            let line = line_of(a);
            assert(on_one_line(text) =~= text);
            assert("ok "@ =~= seq!['o', 'k', ' ']);
            something_is_left(text);
            trimming_after_a_prefix("ok "@, text);
            let t = trim(line);
            assert(trim_start(line) == line);
            assert(t == "ok "@ + trim_end(text));
            assert(t.len() > 3);
            assert(t[2] == ' ');
            assert("cancel"@[2] == 'n');
            assert("busy"@[2] == 's');
            assert(line.last() == text.last());
            assert(unended(line) == line);
            assert(line.take(3) =~= "ok "@);
            assert(line.skip(3) =~= text);
        },
        Answer::Failed(why) => {
            let b = on_one_line(why);
            let line = line_of(a);
            assert("err "@ =~= seq!['e', 'r', 'r', ' ']);
            something_is_left(b);
            trimming_after_a_prefix("err "@, b);
            let t = trim(line);
            assert(trim_start(line) == line);
            assert(t == "err "@ + trim_end(b));
            assert(t.take(4) =~= "err "@);
            assert(t.skip(4) =~= trim_end(b));
            assert(t[0] == 'e');
            assert("ok"@[0] == 'o');
            assert("cancel"@[0] == 'c');
            assert("busy"@[0] == 'b');
            starts_with_no_ok(line);
        },
        Answer::Done => {
            trimmed_already("ok"@);
        },
        Answer::Cancelled => {
            trimmed_already("cancel"@);
            assert("ok"@.len() != "cancel"@.len());
        },
        Answer::Busy => {
            trimmed_already("busy"@);
            assert("ok"@.len() != "busy"@.len());
            assert("cancel"@.len() != "busy"@.len());
        },
    }
}

/// A reply is one line, whatever its reason.
pub proof fn a_reply_is_one_line(a: Answer)
    ensures
        !line_of(a).contains('\n'),
{
    reveal_strlit("ok");
    reveal_strlit("cancel");
    reveal_strlit("busy");
    reveal_strlit("err ");
    reveal_strlit("ok ");
    match a {
        Answer::Chosen(text) => {
            assert forall|i: int| 0 <= i < line_of(a).len() implies line_of(a)[i] != '\n' by {
                if i >= 3 {
                    assert(line_of(a)[i] == on_one_line(text)[i - 3]);
                }
            }
        },
        Answer::Failed(why) => {
            assert forall|i: int| 0 <= i < line_of(a).len() implies line_of(a)[i] != '\n' by {
                if i >= 4 {
                    assert(line_of(a)[i] == on_one_line(why)[i - 4]);
                }
            }
        },
        _ => {},
    }
}

/// The exit status tells a choice, a cancellation and a failure apart.
pub proof fn the_exit_status_tells_how_it_went(reply: Reply, r: i32)
    requires
        call_ensures(Reply::exit_code, (&reply,), r),
    ensures
        r == 0 <==> reply is Done || reply is Chosen || reply is Busy,
        r == 1 <==> reply is Cancelled,
        r == 2 <==> reply is Failed,
{
}

/// A request is served by the tool it names, with the arguments it carries; only `quit` stops the
/// daemon.
pub proof fn a_request_is_served_by_its_tool(request: Result<Request, String>, r: Served)
    requires
        call_ensures(serve, (request,), r),
    ensures
        r is Stop <==> request == Ok::<Request, String>(Request::Quit),
        r matches Served::Show(t, args) ==> (t == Tool::Switch && request == Ok::<Request, String>(
            Request::Show(args),
        )) || (t == Tool::Choose && request == Ok::<Request, String>(Request::Choose(args))),
        request matches Ok(Request::Show(_)) ==> r is Show,
        request matches Ok(Request::Choose(_)) ==> r is Show,
        request matches Err(why) ==> r == Served::Answer(Reply::Failed(why)),
        request == Ok::<Request, String>(Request::Ping) ==> r == Served::Answer(Reply::Done),
{
}

/// How a line ends makes no difference, neither of a request nor of an answer.
pub proof fn the_end_of_a_line_makes_no_difference(line: Seq<char>)
    ensures
        asked(line + seq!['\n']) == asked(line),
        asked(line + seq!['\r', '\n']) == asked(line),
{
    let (a, b) = (line + seq!['\n'], line + seq!['\r', '\n']);
    assert(a.drop_last() =~= line);
    assert(b.drop_last() =~= line + seq!['\r']);
    assert(b.drop_last().drop_last() =~= line);
    assert(unended(b) == unended(b.drop_last()));
}

} // verus!
