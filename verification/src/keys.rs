//! Keyboard pieces the overlays share: keys by number, and keystrokes in a form a user can
//! write down.

use crate::text::{
    ascii_lower, chars_of, decimal, eq_ignore_ascii_case, lower, push_decimal, same, slice_chars,
    string_of, trim, trim_chars, trimmed_already,
};
use vstd::prelude::*;
use vstd::string::*;

verus! {

/// X keysyms the library acts on.
pub const KEY_BRACKETLEFT: u32 = 0x5b;

pub const KEY_SPACE: u32 = 0x20;

pub const KEY_PLUS: u32 = 0x2b;

pub const KEY_MINUS: u32 = 0x2d;

pub const KEY_EQUAL: u32 = 0x3d;

pub const KEY_C: u32 = 0x63;

pub const KEY_Q: u32 = 0x71;

pub const KEY_R: u32 = 0x72;

pub const KEY_ISO_LEFT_TAB: u32 = 0xfe20;

pub const KEY_BACKSPACE: u32 = 0xff08;

pub const KEY_TAB: u32 = 0xff09;

pub const KEY_RETURN: u32 = 0xff0d;

pub const KEY_ESCAPE: u32 = 0xff1b;

pub const KEY_HOME: u32 = 0xff50;

pub const KEY_LEFT: u32 = 0xff51;

pub const KEY_UP: u32 = 0xff52;

pub const KEY_RIGHT: u32 = 0xff53;

pub const KEY_DOWN: u32 = 0xff54;

pub const KEY_PAGE_UP: u32 = 0xff55;

pub const KEY_PAGE_DOWN: u32 = 0xff56;

pub const KEY_END: u32 = 0xff57;

pub const KEY_INSERT: u32 = 0xff63;

pub const KEY_KP_ENTER: u32 = 0xff8d;

pub const KEY_KP_ADD: u32 = 0xffab;

pub const KEY_KP_SUBTRACT: u32 = 0xffad;

pub const KEY_F1: u32 = 0xffbe;

pub const KEY_F35: u32 = 0xffe0;

pub const KEY_META_L: u32 = 0xffe7;

pub const KEY_META_R: u32 = 0xffe8;

pub const KEY_ALT_L: u32 = 0xffe9;

pub const KEY_ALT_R: u32 = 0xffea;

pub const KEY_SUPER_L: u32 = 0xffeb;

pub const KEY_SUPER_R: u32 = 0xffec;

pub const KEY_DELETE: u32 = 0xffff;

/// True for the keystrokes that mean "cancel".
///
/// That is `Esc`, or the terminal-style `Ctrl+[` — the chord that has sent the same
/// byte (`0x1b`) since the ASCII days. `ctrl` is the Control state at the time of the
/// press: xkb leaves the keysym as `bracketleft`, so only the modifier tells the two
/// apart.
pub fn is_cancel(keysym: u32, ctrl: bool) -> (r: bool)
    ensures
        r == (keysym == KEY_ESCAPE || (ctrl && keysym == KEY_BRACKETLEFT)),
{
    keysym == KEY_ESCAPE || (ctrl && keysym == KEY_BRACKETLEFT)
}

/// An ASCII letter or digit.
pub open spec fn is_alphanumeric(c: char) -> bool {
    '0' <= c <= '9' || 'A' <= c <= 'Z' || 'a' <= c <= 'z'
}

/// Letters and digits, at least one.
pub open spec fn is_plain(s: Seq<char>) -> bool {
    s.len() > 0 && forall|i: int| 0 <= i < s.len() ==> is_alphanumeric(#[trigger] s[i])
}

/// What `egui` calls the key it reads from a text, where it reads one.
pub uninterp spec fn egui_key_name(s: Seq<char>) -> Option<Seq<char>>;

/// `egui::Key::from_name`, and `egui::Key::name` of the key it finds. The names it reads
/// include every key's own, which is made of ASCII letters and digits; the only text it
/// reads that holds a colon is the colon alone.
#[verifier::external_body]
fn egui_key(name: &str) -> (r: Option<String>)
    ensures
        match r {
            Some(n) => egui_key_name(name@) == Some(n@),
            None => egui_key_name(name@) is None,
        },
        r matches Some(n) ==> is_plain(n@) && egui_key_name(n@) == Some(n@),
        name@.len() > 1 && name@.contains(':') ==> r is None,
{
    egui::Key::from_name(name).map(|k| k.name().to_string())
}

/// The name of the key a text names: its variants (`Tab`, `ArrowDown`, `Digit1`), their
/// aliases (`Down`, `Esc`) and bare characters (`j`, `1`, `-`) all work.
pub open spec fn key_named(s: Seq<char>) -> Option<Seq<char>> {
    if s.len() > 1 && s.contains(':') {
        None
    } else {
        egui_key_name(s)
    }
}

/// A key, by its own name.
#[derive(Debug, PartialEq, Eq)]
pub struct Key {
    /// The name, as `egui` writes it.
    pub name: String,
}

impl View for Key {
    type V = Seq<char>;

    open spec fn view(&self) -> Seq<char> {
        self.name@
    }
}

impl Clone for Key {
    fn clone(&self) -> (r: Self)
        ensures
            r == *self,
    {
        Key { name: self.name.clone() }
    }
}

impl Key {
    /// The name is a key's own.
    pub open spec fn wf(&self) -> bool {
        is_plain(self@) && key_named(self@) == Some(self@)
    }

    /// The key a text names.
    pub fn from_name(name: &str) -> (r: Option<Key>)
        ensures
            match r {
                Some(k) => key_named(name@) == Some(k@) && k.wf(),
                None => key_named(name@) is None,
            },
    {
        match egui_key(name) {
            Some(n) => {
                assert(!n@.contains(':'));
                Some(Key { name: n })
            },
            None => None,
        }
    }
}

/// A key, held with Shift or without.
#[derive(Debug, PartialEq, Eq)]
pub struct KeyPress {
    /// Named unshifted: `Shift+Minus`, never `Underscore`.
    pub key: Key,
    /// Whether Shift is held.
    pub shifted: bool,
}

impl Clone for KeyPress {
    fn clone(&self) -> (r: Self)
        ensures
            r == *self,
    {
        KeyPress { key: self.key.clone(), shifted: self.shifted }
    }
}

/// A key's name, and whether Shift is held.
pub type Press = (Seq<char>, bool);

/// How a key press is written.
pub open spec fn written(p: Press) -> Seq<char> {
    if p.1 {
        "Shift+"@ + p.0
    } else {
        p.0
    }
}

/// Whether a text starts with `Shift+`, in any case.
pub open spec fn has_shift(s: Seq<char>) -> bool {
    s.len() >= 6 && eq_ignore_ascii_case(s.take(6), "Shift+"@)
}

/// The key press a text spells: an optional `Shift+` prefix, in any case, then a key name.
pub open spec fn press_of(s: Seq<char>) -> Option<Press> {
    let t = trim(s);
    if has_shift(t) {
        match key_named(t.skip(6)) {
            Some(k) => Some((k, true)),
            None => None,
        }
    } else {
        match key_named(t) {
            Some(k) => Some((k, false)),
            None => None,
        }
    }
}

/// What a key that prints nothing is called, by its keysym. Some compositors send
/// `ISO_Left_Tab` for Shift+Tab.
pub open spec fn keysym_name(k: u32) -> Option<Seq<char>> {
    if k == KEY_TAB || k == KEY_ISO_LEFT_TAB {
        Some("Tab"@)
    } else if k == KEY_SPACE {
        Some("Space"@)
    } else if k == KEY_BACKSPACE {
        Some("Backspace"@)
    } else if k == KEY_RETURN || k == KEY_KP_ENTER {
        Some("Enter"@)
    } else if k == KEY_ESCAPE {
        Some("Escape"@)
    } else if k == KEY_LEFT {
        Some("Left"@)
    } else if k == KEY_UP {
        Some("Up"@)
    } else if k == KEY_RIGHT {
        Some("Right"@)
    } else if k == KEY_DOWN {
        Some("Down"@)
    } else if k == KEY_HOME {
        Some("Home"@)
    } else if k == KEY_END {
        Some("End"@)
    } else if k == KEY_PAGE_UP {
        Some("PageUp"@)
    } else if k == KEY_PAGE_DOWN {
        Some("PageDown"@)
    } else if k == KEY_INSERT {
        Some("Insert"@)
    } else if k == KEY_DELETE {
        Some("Delete"@)
    } else if KEY_F1 <= k <= KEY_F35 {
        Some("F"@ + decimal((k - KEY_F1 + 1) as nat))
    } else {
        None
    }
}

fn name_of_keysym(k: u32) -> (r: Option<String>)
    ensures
        match r {
            Some(n) => keysym_name(k) == Some(n@),
            None => keysym_name(k) is None,
        },
{
    if KEY_F1 <= k && k <= KEY_F35 {
        let mut n = String::from_str("F");
        push_decimal(&mut n, (k - KEY_F1 + 1) as u64);
        return Some(n);
    }
    let n = if k == KEY_TAB || k == KEY_ISO_LEFT_TAB {
        "Tab"
    } else if k == KEY_SPACE {
        "Space"
    } else if k == KEY_BACKSPACE {
        "Backspace"
    } else if k == KEY_RETURN || k == KEY_KP_ENTER {
        "Enter"
    } else if k == KEY_ESCAPE {
        "Escape"
    } else if k == KEY_LEFT {
        "Left"
    } else if k == KEY_UP {
        "Up"
    } else if k == KEY_RIGHT {
        "Right"
    } else if k == KEY_DOWN {
        "Down"
    } else if k == KEY_HOME {
        "Home"
    } else if k == KEY_END {
        "End"
    } else if k == KEY_PAGE_UP {
        "PageUp"
    } else if k == KEY_PAGE_DOWN {
        "PageDown"
    } else if k == KEY_INSERT {
        "Insert"
    } else if k == KEY_DELETE {
        "Delete"
    } else {
        return None;
    };
    Some(String::from_str(n))
}

/// The key press behind a keysym: the key is named by the keysym where that names one, else
/// by what it prints with no modifier held, so that it is named unshifted.
pub open spec fn press_behind(keysym: u32, plain: Seq<char>, shift: bool) -> Option<Press> {
    let shifted = shift || keysym == KEY_ISO_LEFT_TAB;
    match keysym_name(keysym) {
        Some(n) => Some((n, shifted)),
        None => match key_named(plain) {
            Some(n) => Some((n, shifted)),
            None => None,
        },
    }
}

/// A [`KeyPress`] that named no known key.
///
/// It leaves out the offending value, which a caller reporting this already has, and
/// says what an accepted one looks like instead.
#[derive(Clone, Copy, Debug, PartialEq, Eq, Structural)]
pub struct UnknownKey;

impl UnknownKey {
    /// The message.
    pub fn to_string(&self) -> (r: String)
        ensures
            r@ == "unknown key (try Tab, Shift+Tab, Down, j, F5)"@,
    {
        String::from_str("unknown key (try Tab, Shift+Tab, Down, j, F5)")
    }
}

impl View for KeyPress {
    type V = Press;

    open spec fn view(&self) -> Press {
        (self.key@, self.shifted)
    }
}

impl KeyPress {
    /// The key press behind a keysym, of a key that prints `plain` with no modifier held.
    pub fn of(keysym: u32, plain: &str, shift: bool) -> (r: Option<KeyPress>)
        ensures
            match r {
                Some(k) => press_behind(keysym, plain@, shift) == Some(k@),
                None => press_behind(keysym, plain@, shift) is None,
            },
    {
        let shifted = shift || keysym == KEY_ISO_LEFT_TAB;
        match name_of_keysym(keysym) {
            Some(name) => Some(KeyPress { key: Key { name }, shifted }),
            None => match Key::from_name(plain) {
                Some(key) => Some(KeyPress { key, shifted }),
                None => None,
            },
        }
    }

    /// Whether it is the same key press.
    pub fn is(&self, other: &KeyPress) -> (r: bool)
        ensures
            r == (self@ == other@),
    {
        self.shifted == other.shifted && same(self.key.name.as_str(), other.key.name.as_str())
    }

    /// The key is one there is.
    pub open spec fn wf(&self) -> bool {
        self.key.wf()
    }

    /// Write what [`KeyPress::parse`] reads: `Tab`, `Shift+Tab`, `Down`, `J`.
    pub fn to_string(&self) -> (r: String)
        ensures
            r@ == written(self@),
    {
        let mut out = String::new();
        if self.shifted {
            out.append("Shift+");
        }
        out.append(self.key.name.as_str());
        assert(out@ =~= written(self@));
        out
    }

    /// Read an optional `Shift+` prefix, in any case, then a key name.
    pub fn parse(s: &str) -> (r: Result<KeyPress, UnknownKey>)
        ensures
            match press_of(s@) {
                Some(p) => r matches Ok(k) && k@ == p && k.wf(),
                None => r matches Err(UnknownKey),
            },
    {
        let all = chars_of(s);
        let t = trim_chars(all.as_slice());
        let n: usize = t.len();
        let shift: [char; 6] = ['s', 'h', 'i', 'f', 't', '+'];
        let mut shifted = n >= 6;
        for i in 0..6
            invariant
                n == t@.len(),
                shift@ == seq!['s', 'h', 'i', 'f', 't', '+'],
                shifted ==> n >= 6 && forall|j: int|
                    0 <= j < i ==> ascii_lower(#[trigger] t@[j]) == shift@[j],
                !shifted ==> n < 6 || exists|j: int|
                    0 <= j < 6 && ascii_lower(#[trigger] t@[j]) != shift@[j],
        {
            if shifted && lower(t[i]) != shift[i] {
                assert(ascii_lower(t@[i as int]) != shift@[i as int]);
                shifted = false;
            }
        }
        assert(shifted == has_shift(t@)) by {
            reveal_strlit("Shift+");
            let lit = "Shift+"@;
            assert(lit =~= seq!['S', 'h', 'i', 'f', 't', '+']);
            assert(forall|j: int| 0 <= j < 6 ==> ascii_lower(lit[j]) == shift@[j]);
            if n >= 6 {
                assert(forall|j: int| 0 <= j < 6 ==> t@.take(6)[j] == t@[j]);
                if !shifted {
                    let j = choose|j: int| 0 <= j < 6 && ascii_lower(t@[j]) != shift@[j];
                    assert(ascii_lower(t@.take(6)[j]) != ascii_lower(lit[j]));
                }
            }
        }
        let name = if shifted {
            let rest = slice_chars(t.as_slice(), 6, n);
            assert(rest@ =~= t@.skip(6));
            string_of(rest.as_slice())
        } else {
            string_of(t.as_slice())
        };
        match Key::from_name(name.as_str()) {
            Some(key) => Ok(KeyPress { key, shifted }),
            None => Err(UnknownKey),
        }
    }
}

/// A key press reads back as what it printed.
pub proof fn a_key_press_reads_back(k: KeyPress)
    requires
        k.wf(),
    ensures
        press_of(written(k@)) == Some(k@),
{
    reveal_strlit("Shift+");
    let w = written(k@);
    let name = k.key@;
    assert("Shift+"@ =~= seq!['S', 'h', 'i', 'f', 't', '+']);
    if k.shifted {
        assert(w.last() == name.last());
        assert(w[0] == 'S');
        trimmed_already(w);
        assert(w.take(6) =~= "Shift+"@);
        assert(w.skip(6) =~= name);
    } else {
        assert(is_alphanumeric(name[0]));
        assert(is_alphanumeric(name.last()));
        trimmed_already(w);
        if has_shift(w) {
            assert(ascii_lower(w.take(6)[5]) == ascii_lower("Shift+"@[5]));
            assert(is_alphanumeric(name[5]));
        }
    }
}

/// What cancels, by keysym: Escape, and the bracket that Control makes Escape of.
pub proof fn escape_cancels(keysym: u32, ctrl: bool, r: bool)
    requires
        call_ensures(is_cancel, (keysym, ctrl), r),
    ensures
        r <==> keysym == 0xff1b || (keysym == 0x5b && ctrl),
{
}

/// A key without a character of its own is known by its keysym, whatever its place prints and
/// whether Shift is held down.
pub proof fn named_keys_are_known_by_their_keysyms(
    keysym: u32,
    plain: &str,
    shift: bool,
    r: Option<KeyPress>,
)
    requires
        call_ensures(KeyPress::of, (keysym, plain, shift), r),
    ensures
        keysym == 0xff09 ==> (r matches Some(p) && p@ == ("Tab"@, shift)),
        keysym == 0xfe20 ==> (r matches Some(p) && p@ == ("Tab"@, true)),
        keysym == 0x20 ==> (r matches Some(p) && p@ == ("Space"@, shift)),
        keysym == 0xff08 ==> (r matches Some(p) && p@ == ("Backspace"@, shift)),
        keysym == 0xff0d || keysym == 0xff8d ==> (r matches Some(p) && p@ == ("Enter"@, shift)),
        keysym == 0xff1b ==> (r matches Some(p) && p@ == ("Escape"@, shift)),
        keysym == 0xff51 ==> (r matches Some(p) && p@ == ("Left"@, shift)),
        keysym == 0xff52 ==> (r matches Some(p) && p@ == ("Up"@, shift)),
        keysym == 0xff53 ==> (r matches Some(p) && p@ == ("Right"@, shift)),
        keysym == 0xff54 ==> (r matches Some(p) && p@ == ("Down"@, shift)),
        keysym == 0xff50 ==> (r matches Some(p) && p@ == ("Home"@, shift)),
        keysym == 0xff57 ==> (r matches Some(p) && p@ == ("End"@, shift)),
        keysym == 0xff55 ==> (r matches Some(p) && p@ == ("PageUp"@, shift)),
        keysym == 0xff56 ==> (r matches Some(p) && p@ == ("PageDown"@, shift)),
        keysym == 0xff63 ==> (r matches Some(p) && p@ == ("Insert"@, shift)),
        keysym == 0xffff ==> (r matches Some(p) && p@ == ("Delete"@, shift)),
        0xffbe <= keysym <= 0xffe0 ==> (r matches Some(p) && p@ == (
            "F"@ + decimal((keysym - 0xffbd) as nat),
            shift,
        )),
{
}

/// Two presses are the same where both the key and Shift are.
pub proof fn shift_tells_presses_apart(a: KeyPress, b: KeyPress, r: bool)
    requires
        call_ensures(KeyPress::is, (&a, &b), r),
    ensures
        r <==> a.key.name@ == b.key.name@ && a.shifted == b.shifted,
{
}

} // verus!
