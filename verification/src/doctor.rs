//! Environment and compositor-capability report, shared by every tool's `doctor` command.
//!
//! It tells the run environment (tool version, OS, compositor and its version, install
//! hint) and the capture-relevant Wayland globals the compositor advertises, so users and
//! bug reports can see at a glance whether, and how well, the suite works here.

use crate::text::{
    char_views, chars_of, contains, contains_chars, decimal, hex, lines, lines_of, lowered,
    lowered_chars, occurs_at, push_char, push_decimal, push_hex, slice_chars, stands_at,
    string_of, trim, trim_chars, views,
};
use crate::wl::{
    advertised, global_version, is_advertised, protocol_for, select_protocol, version_from, Protocol,
};
use vstd::prelude::*;
use vstd::string::*;

verus! {

/// The global by which windows can be captured.
pub const WINDOW_SOURCE: &'static str = "ext_foreign_toplevel_image_capture_source_manager_v1";

/// What the compositor's globals allow: the capture protocol the engine would drive (`None`
/// if neither is advertised), and whether window capture works.
///
/// The two are independent: screen capture can work while window capture doesn't, and the
/// report tells them separately. Window capture is a feature of the copy-capture protocol
/// only: screencopy addresses outputs.
pub fn capture_verdict(globals: &[(String, u32)], force_screencopy: bool) -> (r: (
    Option<Protocol>,
    bool,
))
    ensures
        r.0 == protocol_for(globals@, force_screencopy),
        r.1 == advertised(globals@, WINDOW_SOURCE@, 0),
{
    (select_protocol(globals, force_screencopy), is_advertised(globals, WINDOW_SOURCE, 0))
}

/// `(interface, what it enables)`, ordered roughly by importance.
pub open spec fn checks() -> Seq<(Seq<char>, Seq<char>)> {
    seq![
        ("ext_image_copy_capture_manager_v1"@, "capture frames (core)"@),
        ("ext_output_image_capture_source_manager_v1"@, "capture an output (core)"@),
        ("ext_foreign_toplevel_image_capture_source_manager_v1"@, "capture a window"@),
        ("ext_foreign_toplevel_list_v1"@, "enumerate windows (chooser, -w)"@),
        ("zwlr_screencopy_manager_v1"@, "capture an output, older protocol (fallback)"@),
        ("zxdg_output_manager_v1"@, "accurate output geometry"@),
        ("zwlr_layer_shell_v1"@, "overlays: region select, loupe, switcher, wlr-draw"@),
        ("zwlr_data_control_manager_v1"@, "clipboard copy (-c)"@),
        ("zwp_linux_dmabuf_v1"@, "zero-copy GPU capture"@),
        ("zwp_keyboard_shortcuts_inhibit_manager_v1"@, "switcher keyboard grab"@),
        ("zwp_tablet_manager_v2"@, "stylus input (wlr-draw)"@),
    ]
}

fn check_list() -> (r: [(&'static str, &'static str); 11])
    ensures
        forall|i: int|
            0 <= i < 11 ==> (#[trigger] r@[i]).0@ == checks()[i].0 && r@[i].1@ == checks()[i].1,
{
    [
        ("ext_image_copy_capture_manager_v1", "capture frames (core)"),
        ("ext_output_image_capture_source_manager_v1", "capture an output (core)"),
        ("ext_foreign_toplevel_image_capture_source_manager_v1", "capture a window"),
        ("ext_foreign_toplevel_list_v1", "enumerate windows (chooser, -w)"),
        ("zwlr_screencopy_manager_v1", "capture an output, older protocol (fallback)"),
        ("zxdg_output_manager_v1", "accurate output geometry"),
        ("zwlr_layer_shell_v1", "overlays: region select, loupe, switcher, wlr-draw"),
        ("zwlr_data_control_manager_v1", "clipboard copy (-c)"),
        ("zwp_linux_dmabuf_v1", "zero-copy GPU capture"),
        ("zwp_keyboard_shortcuts_inhibit_manager_v1", "switcher keyboard grab"),
        ("zwp_tablet_manager_v2", "stylus input (wlr-draw)"),
    ]
}

/// The line that tells one capability.
pub open spec fn capability(check: (Seq<char>, Seq<char>), version: Option<u32>) -> Seq<char> {
    match version {
        Some(v) => "  ✓ "@ + check.0 + " (v"@ + decimal(v as nat) + ") — "@ + check.1,
        None => "  ✗ "@ + check.0 + " — "@ + check.1,
    }
}

fn capability_line(interface: &str, desc: &str, version: Option<u32>) -> (r: String)
    ensures
        r@ == capability((interface@, desc@), version),
{
    match version {
        Some(v) => {
            let mut out = String::from_str("  ✓ ");
            out.append(interface);
            out.append(" (v");
            push_decimal(&mut out, v as u64);
            out.append(") — ");
            out.append(desc);
            out
        },
        None => {
            let mut out = String::from_str("  ✗ ");
            out.append(interface);
            out.append(" — ");
            out.append(desc);
            out
        },
    }
}

/// The lines that tell every capability, in the table's order.
pub open spec fn capability_lines(globals: Seq<(String, u32)>) -> Seq<Seq<char>> {
    Seq::new(
        checks().len(),
        |i: int| capability(checks()[i], version_from(globals, checks()[i].0, 0)),
    )
}

/// Why no screen can be captured.
pub const NO_SCREEN_CAPTURE: &'static str = "Screen capture: UNSUPPORTED — needs ext-image-copy-capture-v1 + the output source (wlroots ≥ 0.19 / Sway ≥ 1.11), or zwlr-screencopy-v1; neither is advertised (Mutter/KWin expose no capture protocol).";

/// What window capture is good for.
pub const WINDOW_CAPTURE: &'static str = "Window capture: supported (wlr-switcher, -w/--pick-window, window mirror/record).";

/// Why no window can be captured.
pub const NO_WINDOW_CAPTURE: &'static str = "Window capture: UNSUPPORTED — needs the foreign-toplevel source (wlroots ≥ 0.20 / Sway ≥ 1.12) and ext-image-copy-capture-v1; zwlr-screencopy-v1 captures outputs only. Screen capture still works; only window-only features are unavailable (wlr-switcher exits with a notice).";

/// No compositor answers for the focus.
pub const NO_FOCUS: &'static str = "Focus IPC: none detected (-a / --current-output unavailable).";

/// The name on the wire of the protocol's family.
pub open spec fn interface_name(p: Protocol) -> Seq<char> {
    match p {
        Protocol::ImageCopyCapture => "ext-image-copy-capture-v1"@,
        Protocol::Screencopy => "zwlr-screencopy-v1"@,
    }
}

/// The verdict on screen capture.
pub open spec fn screen_verdict(protocol: Option<Protocol>) -> Seq<char> {
    match protocol {
        Some(p) => "Screen capture: supported via "@ + interface_name(p)
            + " (screenshots, recording, loupe, colour picker, wlr-draw)."@,
        None => NO_SCREEN_CAPTURE@,
    }
}

/// The verdict on window capture.
pub open spec fn window_verdict(protocol: Option<Protocol>, window: bool) -> Seq<char> {
    if window && protocol == Some(Protocol::ImageCopyCapture) {
        WINDOW_CAPTURE@
    } else {
        NO_WINDOW_CAPTURE@
    }
}

/// The line on the focus, for the compositor that answers for it.
pub open spec fn focus_verdict(backend: Option<Seq<char>>) -> Seq<char> {
    match backend {
        Some(name) => "Focus IPC: "@ + name + " detected (-a / --current-output work)."@,
        None => NO_FOCUS@,
    }
}

fn screen_line(protocol: Option<Protocol>) -> (r: String)
    ensures
        r@ == screen_verdict(protocol),
{
    match protocol {
        Some(p) => {
            let mut out = String::from_str("Screen capture: supported via ");
            out.append(p.interface());
            out.append(" (screenshots, recording, loupe, colour picker, wlr-draw).");
            out
        },
        None => String::from_str(NO_SCREEN_CAPTURE),
    }
}

fn window_line(protocol: Option<Protocol>, window: bool) -> (r: String)
    ensures
        r@ == window_verdict(protocol, window),
{
    if window && matches!(protocol, Some(Protocol::ImageCopyCapture)) {
        String::from_str(WINDOW_CAPTURE)
    } else {
        String::from_str(NO_WINDOW_CAPTURE)
    }
}

fn focus_line(backend: Option<&str>) -> (r: String)
    ensures
        r@ == focus_verdict(
            match backend {
                Some(name) => Some(name@),
                None => None,
            },
        ),
{
    match backend {
        Some(name) => {
            let mut out = String::from_str("Focus IPC: ");
            out.append(name);
            out.append(" detected (-a / --current-output work).");
            out
        },
        None => String::from_str(NO_FOCUS),
    }
}

/// The capability report: the table, a blank line, and the verdicts. `gpu` is what a probe
/// of the GPU path said, which is told only where screens can be captured at all.
pub open spec fn report_lines(
    globals: Seq<(String, u32)>,
    force_screencopy: bool,
    gpu: Seq<char>,
    focus: Option<Seq<char>>,
) -> Seq<Seq<char>> {
    let protocol = protocol_for(globals, force_screencopy);
    let window = advertised(globals, WINDOW_SOURCE@, 0);
    let gpu_line = if protocol is Some {
        seq!["GPU capture: "@ + gpu]
    } else {
        Seq::empty()
    };
    seq!["Compositor capabilities (advertised Wayland globals):"@, Seq::empty()]
        + capability_lines(globals) + seq![
        Seq::empty(),
        screen_verdict(protocol),
        window_verdict(protocol, window),
    ] + gpu_line + seq![focus_verdict(focus)]
}

/// The compositor capability report, line by line. Backs every tool's `doctor` command and
/// `--doctor` flag.
pub fn report(
    globals: &[(String, u32)],
    force_screencopy: bool,
    gpu: &str,
    focus: Option<&str>,
) -> (r: Vec<String>)
    ensures
        views(r@) == report_lines(
            globals@,
            force_screencopy,
            gpu@,
            match focus {
                Some(name) => Some(name@),
                None => None,
            },
        ),
{
    let mut out: Vec<String> = Vec::new();
    let title = String::from_str("Compositor capabilities (advertised Wayland globals):");
    let blank = String::new();
    let ghost first = seq![title@, blank@];
    out.push(title);
    out.push(blank);
    let table = check_list();
    let ghost wanted = capability_lines(globals@);
    assert(views(out@) =~= first + wanted.take(0));
    for i in 0..11
        invariant
            wanted == capability_lines(globals@),
            wanted.len() == 11,
            forall|j: int|
                0 <= j < 11 ==> (#[trigger] table@[j]).0@ == checks()[j].0 && table@[j].1@
                    == checks()[j].1,
            views(out@) == first + wanted.take(i as int),
    {
        assert(table@[i as int].0@ == checks()[i as int].0);
        let line = capability_line(table[i].0, table[i].1, global_version(globals, table[i].0));
        let ghost before = out@;
        assert(line@ == wanted[i as int]);
        out.push(line);
        assert(views(out@) =~= views(before).push(line@));
        assert(first + wanted.take(i + 1) =~= (first + wanted.take(i as int)).push(line@));
    }
    assert(wanted.take(11) =~= wanted);
    let ghost table_end = out@;
    let (protocol, window) = capture_verdict(globals, force_screencopy);
    let gap = String::new();
    let screen = screen_line(protocol);
    let windows = window_line(protocol, window);
    let ghost verdicts = seq![gap@, screen@, windows@];
    out.push(gap);
    out.push(screen);
    out.push(windows);
    assert(views(out@) =~= views(table_end) + verdicts);
    let ghost before_gpu = out@;
    if protocol.is_some() {
        let mut line = String::from_str("GPU capture: ");
        line.append(gpu);
        out.push(line);
        assert(views(out@) =~= views(before_gpu) + seq!["GPU capture: "@ + gpu@]);
    } else {
        assert(views(out@) =~= views(before_gpu) + Seq::<Seq<char>>::empty());
    }
    let ghost before_focus = out@;
    let line = focus_line(focus);
    let ghost last = line@;
    out.push(line);
    assert(views(out@) =~= views(before_focus).push(last));
    assert(views(out@) =~= report_lines(
        globals@,
        force_screencopy,
        gpu@,
        match focus {
            Some(name) => Some(name@),
            None => None,
        },
    ));
    out
}

/// The environment block above the capabilities.
pub open spec fn header_lines(
    tool: Seq<char>,
    version: Seq<char>,
    os: Option<Seq<char>>,
    compositor: Seq<char>,
    executable: Option<Seq<char>>,
) -> Seq<Seq<char>> {
    let os_line = match os {
        Some(name) => seq!["  OS:         "@ + name],
        None => Seq::empty(),
    };
    let exe_line = match executable {
        Some(path) => seq!["  Executable: "@ + path],
        None => Seq::empty(),
    };
    seq![tool + " "@ + version, Seq::empty()] + os_line + seq!["  Compositor: "@ + compositor]
        + exe_line + seq![Seq::empty()]
}

/// The environment block, line by line: the tool, the OS where it has a name, the
/// compositor, and the executable's path where it is known.
pub fn header(
    tool: &str,
    version: &str,
    os: Option<&str>,
    compositor: &str,
    executable: Option<&str>,
) -> (r: Vec<String>)
    ensures
        views(r@) == header_lines(
            tool@,
            version@,
            match os {
                Some(s) => Some(s@),
                None => None,
            },
            compositor@,
            match executable {
                Some(s) => Some(s@),
                None => None,
            },
        ),
{
    let mut out: Vec<String> = Vec::new();
    let mut title = String::from_str(tool);
    title.append(" ");
    title.append(version);
    out.push(title);
    out.push(String::new());
    let ghost start = out@;
    assert(views(start) =~= seq![tool@ + " "@ + version@, Seq::empty()]);
    if let Some(name) = os {
        let mut line = String::from_str("  OS:         ");
        line.append(name);
        out.push(line);
        assert(views(out@) =~= views(start) + seq!["  OS:         "@ + name@]);
    } else {
        assert(views(out@) =~= views(start) + Seq::<Seq<char>>::empty());
    }
    let ghost middle = out@;
    let mut line = String::from_str("  Compositor: ");
    line.append(compositor);
    out.push(line);
    assert(views(out@) =~= views(middle) + seq!["  Compositor: "@ + compositor@]);
    let ghost late = out@;
    if let Some(path) = executable {
        let mut line = String::from_str("  Executable: ");
        line.append(path);
        out.push(line);
        assert(views(out@) =~= views(late) + seq!["  Executable: "@ + path@]);
    } else {
        assert(views(out@) =~= views(late) + Seq::<Seq<char>>::empty());
    }
    let ghost end = out@;
    out.push(String::new());
    assert(views(out@) =~= views(end) + seq![Seq::<char>::empty()]);
    out
}

/// Whether the home directory is where `path` is, or a directory above it.
pub open spec fn is_below(path: Seq<char>, home: Seq<char>) -> bool {
    home.len() > 0 && occurs_at(path, home, 0) && (path.len() == home.len()
        || path[home.len() as int] == '/')
}

/// Replace a leading home directory in `path` with `~`, so that the report can be pasted
/// into a public bug report without leaking the user's name. Only the real home directory
/// is masked (at a path boundary, so `/home/bob` doesn't match `/home/bobby`); the rest of
/// the path, which hints at the install method, is kept.
pub fn redact_home(path: &str, home: Option<&str>) -> (r: String)
    ensures
        r@ == match home {
            Some(h) => if is_below(path@, h@) {
                seq!['~'] + path@.skip(h@.len() as int)
            } else {
                path@
            },
            None => path@,
        },
{
    if let Some(h) = home {
        let p = chars_of(path);
        let prefix = chars_of(h);
        let n: usize = prefix.len();
        if n > 0 && stands_at(p.as_slice(), prefix.as_slice(), 0) && (p.len() == n || p[n] == '/') {
            let rest = slice_chars(p.as_slice(), n, p.len());
            let mut out = String::new();
            push_char(&mut out, '~');
            let tail = string_of(rest.as_slice());
            out.append(tail.as_str());
            assert(rest@ =~= path@.skip(n as int));
            assert(out@ =~= seq!['~'] + path@.skip(n as int));
            return out;
        }
    }
    String::from_str(path)
}

/// `s` without the quotes at its start.
pub open spec fn unquoted_start(s: Seq<char>) -> Seq<char>
    decreases s.len(),
{
    if s.len() > 0 && s[0] == '"' {
        unquoted_start(s.skip(1))
    } else {
        s
    }
}

/// `s` without the quotes at its end.
pub open spec fn unquoted_end(s: Seq<char>) -> Seq<char>
    decreases s.len(),
{
    if s.len() > 0 && s.last() == '"' {
        unquoted_end(s.drop_last())
    } else {
        s
    }
}

fn unquote(s: &[char]) -> (r: String)
    ensures
        r@ == unquoted_end(unquoted_start(s@)),
{
    let n: usize = s.len();
    let mut from: usize = 0;
    assert(s@.skip(0) =~= s@);
    while from < n && s[from] == '"'
        invariant
            n == s@.len(),
            from <= n,
            unquoted_start(s@.skip(from as int)) == unquoted_start(s@),
        decreases n - from,
    {
        assert(s@.skip(from as int).skip(1) =~= s@.skip(from + 1));
        from = from + 1;
    }
    let mut to: usize = n;
    let ghost t = s@.skip(from as int);
    assert(s@.subrange(from as int, n as int) =~= t);
    while to > from && s[to - 1] == '"'
        invariant
            n == s@.len(),
            from <= to <= n,
            unquoted_end(s@.subrange(from as int, to as int)) == unquoted_end(t),
        decreases to,
    {
        assert(s@.subrange(from as int, to as int).drop_last() =~= s@.subrange(
            from as int,
            to - 1,
        ));
        to = to - 1;
    }
    let kept = slice_chars(s, from, to);
    string_of(kept.as_slice())
}

/// What follows the name on the first line that starts with it, from the `k`-th on.
pub open spec fn value_from(ls: Seq<Seq<char>>, name: Seq<char>, k: int) -> Option<Seq<char>>
    decreases ls.len() - k,
{
    if k < 0 || k >= ls.len() {
        None
    } else if occurs_at(ls[k], name, 0) {
        Some(ls[k].skip(name.len() as int))
    } else {
        value_from(ls, name, k + 1)
    }
}

/// The system's name in the text of `/etc/os-release`.
pub open spec fn pretty_name(os_release: Seq<char>) -> Option<Seq<char>> {
    match value_from(lines(os_release), "PRETTY_NAME="@, 0) {
        Some(v) => Some(unquoted_end(unquoted_start(v))),
        None => None,
    }
}

/// `PRETTY_NAME` in the text of `/etc/os-release` (such as `Debian GNU/Linux 13 (trixie)`),
/// without its quotes.
pub fn parse_pretty_name(os_release: &str) -> (r: Option<String>)
    ensures
        match r {
            Some(name) => pretty_name(os_release@) == Some(name@),
            None => pretty_name(os_release@) is None,
        },
{
    let all = chars_of(os_release);
    let ls = lines_of(all.as_slice());
    let ghost l = lines(os_release@);
    let name = chars_of("PRETTY_NAME=");
    let n: usize = name.len();
    for i in 0..ls.len()
        invariant
            char_views(ls@) == l,
            name@ == "PRETTY_NAME="@,
            n == name@.len(),
            value_from(l, name@, 0) == value_from(l, name@, i as int),
            l == lines(os_release@),
    {
        assert(char_views(ls@)[i as int] == ls@[i as int]@);
        if stands_at(ls[i].as_slice(), name.as_slice(), 0) {
            let rest = slice_chars(ls[i].as_slice(), n, ls[i].len());
            assert(rest@ =~= l[i as int].skip(n as int));
            return Some(unquote(rest.as_slice()));
        }
    }
    assert(char_views(ls@).len() == ls@.len());
    None
}

/// How the compositor is told: its name, and what it says its version is.
pub open spec fn compositor_text(name: Option<Seq<char>>, version: Option<Seq<char>>) -> Seq<char> {
    match name {
        None => "unknown (XDG_CURRENT_DESKTOP unset or unrecognised)"@,
        Some(n) => match version {
            Some(v) => n + " — "@ + v,
            None => n,
        },
    }
}

/// The compositor's identification: a name, plus its self-reported version line where there
/// is one.
pub fn compositor(name: Option<&str>, version: Option<&str>) -> (r: String)
    ensures
        r@ == compositor_text(
            match name {
                Some(s) => Some(s@),
                None => None,
            },
            match version {
                Some(s) => Some(s@),
                None => None,
            },
        ),
{
    match name {
        None => String::from_str("unknown (XDG_CURRENT_DESKTOP unset or unrecognised)"),
        Some(n) => {
            let mut out = String::from_str(n);
            if let Some(v) = version {
                out.append(" — ");
                out.append(v);
            }
            out
        },
    }
}

/// The compositor's name: what answers for the focus, else the first of the two desktop
/// variables that is set, unless that one is empty.
pub fn detected_name<'a>(
    focus: Option<&'a str>,
    current_desktop: Option<&'a str>,
    session_desktop: Option<&'a str>,
) -> (r: Option<&'a str>)
    ensures
        r == if focus is Some {
            focus
        } else {
            let set = if current_desktop is Some {
                current_desktop
            } else {
                session_desktop
            };
            if set matches Some(s) && s@.len() > 0 {
                set
            } else {
                None
            }
        },
{
    if focus.is_some() {
        return focus;
    }
    let set = if current_desktop.is_some() {
        current_desktop
    } else {
        session_desktop
    };
    match set {
        Some(s) => if chars_of(s).len() > 0 {
            Some(s)
        } else {
            None
        },
        None => None,
    }
}

/// The command that prints a compositor's version, and its argument.
pub open spec fn version_command_for(name: Seq<char>) -> Option<(Seq<char>, Seq<char>)> {
    let n = lowered(name);
    if contains(n, "sway"@) {
        Some(("sway"@, "--version"@))
    } else if contains(n, "hypr"@) {
        Some(("hyprctl"@, "version"@))
    } else if contains(n, "niri"@) {
        Some(("niri"@, "--version"@))
    } else if contains(n, "cosmic"@) {
        Some(("cosmic-comp"@, "--version"@))
    } else {
        None
    }
}

fn holds_word(name: &[char], word: &str) -> (r: bool)
    ensures
        r == contains(name@, word@),
{
    let w = chars_of(word);
    contains_chars(name, w.as_slice())
}

/// How to ask a recognised compositor for its version (`sway --version`, `hyprctl version`,
/// `niri --version`, `cosmic-comp --version`).
pub fn version_command(name: &str) -> (r: Option<(&'static str, &'static str)>)
    ensures
        match r {
            Some((cmd, arg)) => version_command_for(name@) == Some((cmd@, arg@)),
            None => version_command_for(name@) is None,
        },
{
    let all = chars_of(name);
    let low = lowered_chars(all.as_slice());
    let n = low.as_slice();
    if holds_word(n, "sway") {
        Some(("sway", "--version"))
    } else if holds_word(n, "hypr") {
        Some(("hyprctl", "version"))
    } else if holds_word(n, "niri") {
        Some(("niri", "--version"))
    } else if holds_word(n, "cosmic") {
        Some(("cosmic-comp", "--version"))
    } else {
        None
    }
}

/// The first line that is not blank, trimmed, from the `k`-th on.
pub open spec fn filled_from(ls: Seq<Seq<char>>, k: int) -> Option<Seq<char>>
    decreases ls.len() - k,
{
    if k < 0 || k >= ls.len() {
        None
    } else if trim(ls[k]).len() > 0 {
        Some(trim(ls[k]))
    } else {
        filled_from(ls, k + 1)
    }
}

/// What a version command said: its first line that is not blank, trimmed.
pub fn self_reported_version(output: &str) -> (r: Option<String>)
    ensures
        match r {
            Some(line) => filled_from(lines(output@), 0) == Some(line@),
            None => filled_from(lines(output@), 0) is None,
        },
{
    let all = chars_of(output);
    let ls = lines_of(all.as_slice());
    let ghost l = lines(output@);
    for i in 0..ls.len()
        invariant
            char_views(ls@) == l,
            l == lines(output@),
            filled_from(l, 0) == filled_from(l, i as int),
    {
        assert(char_views(ls@)[i as int] == ls@[i as int]@);
        let line = trim_chars(ls[i].as_slice());
        if line.len() > 0 {
            return Some(string_of(line.as_slice()));
        }
    }
    assert(char_views(ls@).len() == ls@.len());
    None
}

/// What a probe of the GPU path came to.
pub enum GpuProbe {
    /// The engine has no GPU path built in.
    NotBuiltIn,
    /// No connection to the compositor, with the reason.
    Unreachable(String),
    /// There is no screen to capture.
    NoOutput,
    /// The capture failed, with the reason.
    Failed(String),
    /// The frame came through shared memory.
    Shm,
    /// A buffer came back and could be read.
    Working { fourcc: u32, modifier: u64, planes: usize },
    /// A buffer came back and could not be read, with the reason.
    Broken { fourcc: u32, modifier: u64, planes: usize, reason: String },
}

/// The layout of a buffer, as a bug report needs it.
pub open spec fn layout_text(fourcc: u32, modifier: u64, planes: usize) -> Seq<char> {
    "fourcc 0x"@ + hex(fourcc as nat, 8, false) + ", modifier 0x"@ + hex(modifier as nat, 16, false)
        + ", "@ + decimal(planes as nat) + " plane(s)"@
}

impl GpuProbe {
    /// What is told of the probe.
    pub open spec fn text(&self) -> Seq<char> {
        match self {
            GpuProbe::NotBuiltIn => "not built in (shm capture only)"@,
            GpuProbe::Unreachable(e) => "could not probe ("@ + e@ + ")"@,
            GpuProbe::NoOutput => "no output to probe"@,
            GpuProbe::Failed(e) => "probe capture failed ("@ + e@ + ")"@,
            GpuProbe::Shm => "not used (no dma-buf format negotiated); capturing through shm"@,
            GpuProbe::Working { fourcc, modifier, planes } => "working — "@ + layout_text(
                *fourcc,
                *modifier,
                *planes,
            ),
            GpuProbe::Broken { fourcc, modifier, planes, reason } => "BROKEN — "@ + layout_text(
                *fourcc,
                *modifier,
                *planes,
            ) + ": "@ + reason@
                + ". Captures still work (they fall back to shm); please report this with the line above."@,
        }
    }
}

fn push_layout(out: &mut String, fourcc: u32, modifier: u64, planes: usize)
    ensures
        final(out)@ == old(out)@ + layout_text(fourcc, modifier, planes),
{
    out.append("fourcc 0x");
    push_hex(out, fourcc as u64, 8, false);
    out.append(", modifier 0x");
    push_hex(out, modifier, 16, false);
    out.append(", ");
    push_decimal(out, planes as u64);
    out.append(" plane(s)");
    assert(out@ =~= old(out)@ + layout_text(fourcc, modifier, planes));
}

/// What a probe of the GPU path is told as. Advertising a buffer protocol says nothing about
/// whether the buffer the driver hands over can be imported back, so the layout that was
/// actually negotiated is told.
pub fn gpu_probe(probe: &GpuProbe) -> (r: String)
    ensures
        r@ == probe.text(),
{
    match probe {
        GpuProbe::NotBuiltIn => String::from_str("not built in (shm capture only)"),
        GpuProbe::Unreachable(e) => {
            let mut out = String::from_str("could not probe (");
            out.append(e.as_str());
            out.append(")");
            out
        },
        GpuProbe::NoOutput => String::from_str("no output to probe"),
        GpuProbe::Failed(e) => {
            let mut out = String::from_str("probe capture failed (");
            out.append(e.as_str());
            out.append(")");
            out
        },
        GpuProbe::Shm => String::from_str(
            "not used (no dma-buf format negotiated); capturing through shm",
        ),
        GpuProbe::Working { fourcc, modifier, planes } => {
            let mut out = String::from_str("working — ");
            push_layout(&mut out, *fourcc, *modifier, *planes);
            out
        },
        GpuProbe::Broken { fourcc, modifier, planes, reason } => {
            let mut out = String::from_str("BROKEN — ");
            push_layout(&mut out, *fourcc, *modifier, *planes);
            out.append(": ");
            out.append(reason.as_str());
            out.append(
                ". Captures still work (they fall back to shm); please report this with the line above.",
            );
            out
        },
    }
}

/// A path in the home directory is masked, and what is kept of it is what follows the home
/// directory.
pub proof fn the_home_directory_is_not_told(home: Seq<char>, rest: Seq<char>)
    requires
        home.len() > 0,
        rest.len() == 0 || rest[0] == '/',
    ensures
        is_below(home + rest, home),
        (home + rest).skip(home.len() as int) == rest,
{
    assert((home + rest).skip(home.len() as int) =~= rest);
    assert((home + rest).subrange(0, home.len() as int) =~= home);
}

/// A compositor is named by what answered for it, then by the environment, where what is set but
/// empty names none.
pub proof fn a_compositor_is_named_by_what_answered(
    focus: Option<&str>,
    current: Option<&str>,
    session: Option<&str>,
    r: Option<&str>,
)
    requires
        call_ensures(detected_name, (focus, current, session), r),
    ensures
        focus is Some ==> r == focus,
        focus is None ==> (current matches Some(c) ==> (c@.len() > 0 ==> r == current) && (c@.len()
            == 0 ==> r is None)),
        focus is None && current is None ==> (session matches Some(s) ==> (s@.len() > 0 ==> r
            == session)),
        focus is None && current is None && session is None ==> r is None,
{
}

/// Windows can be captured with the newer protocol, where they are a source; with the older one
/// never.
pub proof fn windows_are_captured_with_the_newer_protocol(
    globals: &[(String, u32)],
    forced: bool,
    r: (Option<Protocol>, bool),
)
    requires
        call_ensures(capture_verdict, (globals, forced), r),
    ensures
        r.1 <==> crate::wl::is_there(globals@, WINDOW_SOURCE@),
        r.1 && r.0 == Some(Protocol::ImageCopyCapture) ==> window_verdict(r.0, r.1)
            == WINDOW_CAPTURE@,
        !r.1 || r.0 != Some(Protocol::ImageCopyCapture) ==> window_verdict(r.0, r.1)
            == NO_WINDOW_CAPTURE@,
{
    if crate::wl::is_there(globals@, WINDOW_SOURCE@) {
        let i = choose|i: int| 0 <= i < globals@.len() && (#[trigger] globals@[i]).0@
            == WINDOW_SOURCE@;
        assert(globals@[i].1 >= 0);
    }
}

/// A version is the first line that says something.
pub proof fn a_version_is_the_first_line_that_says_something(output: &str, r: Option<String>)
    requires
        call_ensures(self_reported_version, (output,), r),
    ensures
        r matches Some(line) ==> line@.len() > 0 && exists|i: int|
            0 <= i < lines(output@).len() && trim(#[trigger] lines(output@)[i]) == line@
                && forall|j: int| 0 <= j < i ==> trim(#[trigger] lines(output@)[j]).len() == 0,
        r is None ==> forall|j: int|
            0 <= j < lines(output@).len() ==> trim(#[trigger] lines(output@)[j]).len() == 0,
{
    filled_is(lines(output@), 0);
}

proof fn filled_is(ls: Seq<Seq<char>>, k: int)
    requires
        0 <= k,
    ensures
        match filled_from(ls, k) {
            Some(line) => line.len() > 0 && exists|i: int|
                k <= i < ls.len() && trim(#[trigger] ls[i]) == line && forall|j: int|
                    k <= j < i ==> trim(#[trigger] ls[j]).len() == 0,
            None => forall|j: int| k <= j < ls.len() ==> trim(#[trigger] ls[j]).len() == 0,
        },
    decreases ls.len() - k,
{
    if k < ls.len() {
        if trim(ls[k]).len() > 0 {
            assert(trim(ls[k]) == filled_from(ls, k)->0);
        } else {
            filled_is(ls, k + 1);
        }
    }
}

/// A capability is reported as there, with its version, exactly where a global of its name is.
pub proof fn what_is_announced_is_reported(
    globals: Seq<(String, u32)>,
    name: Seq<char>,
    desc: Seq<char>,
)
    ensures
        ({
            let line = capability((name, desc), version_from(globals, name, 0));
            &&& crate::wl::is_there(globals, name) ==> line.len() > 2 && line[2] == '✓'
            &&& !crate::wl::is_there(globals, name) ==> line.len() > 2 && line[2] == '✗'
        }),
{
    reveal_strlit("  ✓ ");
    reveal_strlit("  ✗ ");
    announced_or_not(globals, name, 0);
}

proof fn announced_or_not(globals: Seq<(String, u32)>, name: Seq<char>, k: int)
    requires
        0 <= k,
    ensures
        version_from(globals, name, k) is Some <==> exists|i: int|
            k <= i < globals.len() && (#[trigger] globals[i]).0@ == name,
    decreases globals.len() - k,
{
    if k < globals.len() {
        if globals[k].0@ != name {
            announced_or_not(globals, name, k + 1);
        }
    }
}

/// Quotation marks around a name are not part of it.
pub proof fn quotation_marks_are_taken_off(s: Seq<char>)
    requires
        s.len() > 0,
        s[0] != '"',
        s.last() != '"',
    ensures
        unquoted_end(unquoted_start(seq!['"'] + s + seq!['"'])) == s,
        unquoted_end(unquoted_start(s)) == s,
{
    let q = seq!['"'] + s + seq!['"'];
    let t = s + seq!['"'];
    assert(q.skip(1) =~= t);
    assert(t[0] == s[0]);
    assert(unquoted_start(q) == unquoted_start(t));
    assert(t.drop_last() =~= s);
    assert(unquoted_end(t) == unquoted_end(s));
}

} // verus!
