//! Colour and font theme: generic-dark defaults, overridable from
//! `~/.config/wlr-chooser/theme.toml` (or `$XDG_CONFIG_HOME/wlr-chooser/theme.toml`).
//!
//! Colour keys are `#rrggbb` or `#rrggbbaa`; font keys configure the UI font.

use crate::icons::{below, join_path, opt};
use crate::text::{chars_of, owned, trim, trim_chars, views};
use vstd::prelude::*;
use vstd::string::*;

verus! {

/// A colour, its alpha kept apart from the other three.
#[derive(Clone, Copy, Debug, PartialEq, Eq, Structural)]
pub struct Rgba {
    pub r: u8,
    pub g: u8,
    pub b: u8,
    pub a: u8,
}

/// An opaque colour.
pub open spec fn opaque(r: u8, g: u8, b: u8) -> Rgba {
    Rgba { r, g, b, a: 255 }
}

fn rgb(r: u8, g: u8, b: u8) -> (c: Rgba)
    ensures
        c == opaque(r, g, b),
{
    Rgba { r, g, b, a: 255 }
}

/// The palette and the fonts.
pub struct Theme {
    /// Dimmed overlay behind the card (lock mode).
    pub backdrop: Rgba,
    /// Window background (no-lock).
    pub bg: Rgba,
    /// The centred card.
    pub card: Rgba,
    /// Tile background.
    pub tile: Rgba,
    /// Tile background, hovered.
    pub tile_hover: Rgba,
    /// Tile background, selected.
    pub tile_selected: Rgba,
    /// Thumbnail letterbox area.
    pub thumb: Rgba,
    /// Labels.
    pub text: Rgba,
    /// Placeholders, secondary.
    pub text_dim: Rgba,
    /// General accent (selection, focus).
    pub accent: Rgba,
    /// Outline and glyph for output tiles.
    pub screen_accent: Rgba,
    /// Outline for window tiles.
    pub window_accent: Rgba,
    /// UI font family.
    pub font: Option<String>,
    /// Or a direct font file.
    pub font_path: Option<String>,
    /// CJK fallback family (else one is looked for).
    pub cjk_font: Option<String>,
}

/// The theme without a configuration.
pub open spec fn default_theme() -> Theme {
    Theme {
        backdrop: Rgba { r: 0, g: 0, b: 0, a: 140 },
        bg: opaque(0x1e, 0x21, 0x27),
        card: opaque(0x21, 0x25, 0x2d),
        tile: opaque(0x18, 0x1b, 0x22),
        tile_hover: opaque(0x26, 0x2b, 0x33),
        tile_selected: opaque(0x3b, 0x42, 0x52),
        thumb: opaque(0x12, 0x14, 0x1a),
        text: opaque(0xd8, 0xde, 0xe9),
        text_dim: opaque(0x7a, 0x82, 0x90),
        accent: opaque(0x88, 0xc0, 0xd0),
        screen_accent: opaque(0x81, 0xa1, 0xc1),
        window_accent: opaque(0xb4, 0x8e, 0xad),
        font: None,
        font_path: None,
        cjk_font: None,
    }
}

impl Default for Theme {
    fn default() -> (t: Self)
        ensures
            t == default_theme(),
    {
        Theme {
            backdrop: Rgba { r: 0, g: 0, b: 0, a: 140 },
            bg: rgb(0x1e, 0x21, 0x27),
            card: rgb(0x21, 0x25, 0x2d),
            tile: rgb(0x18, 0x1b, 0x22),
            tile_hover: rgb(0x26, 0x2b, 0x33),
            tile_selected: rgb(0x3b, 0x42, 0x52),
            thumb: rgb(0x12, 0x14, 0x1a),
            text: rgb(0xd8, 0xde, 0xe9),
            text_dim: rgb(0x7a, 0x82, 0x90),
            accent: rgb(0x88, 0xc0, 0xd0),
            screen_accent: rgb(0x81, 0xa1, 0xc1),
            window_accent: rgb(0xb4, 0x8e, 0xad),
            font: None,
            font_path: None,
            cjk_font: None,
        }
    }
}

/// What a user's configuration says, key by key.
pub struct Raw {
    pub backdrop: Option<String>,
    pub bg: Option<String>,
    pub card: Option<String>,
    pub tile: Option<String>,
    pub tile_hover: Option<String>,
    pub tile_selected: Option<String>,
    pub thumb: Option<String>,
    pub text: Option<String>,
    pub text_dim: Option<String>,
    pub accent: Option<String>,
    pub screen_accent: Option<String>,
    pub window_accent: Option<String>,
    pub font: Option<String>,
    pub font_path: Option<String>,
    pub cjk_font: Option<String>,
}

/// The value of a hexadecimal digit.
pub open spec fn nibble(c: char) -> Option<u8> {
    if '0' <= c <= '9' {
        Some((c as u32 - 48) as u8)
    } else if 'a' <= c <= 'f' {
        Some((c as u32 - 87) as u8)
    } else if 'A' <= c <= 'F' {
        Some((c as u32 - 55) as u8)
    } else {
        None
    }
}

fn digit(c: char) -> (r: Option<u8>)
    ensures
        r == nibble(c),
        r matches Some(d) ==> d < 16,
{
    if '0' <= c && c <= '9' {
        Some((c as u32 - 48) as u8)
    } else if 'a' <= c && c <= 'f' {
        Some((c as u32 - 87) as u8)
    } else if 'A' <= c && c <= 'F' {
        Some((c as u32 - 55) as u8)
    } else {
        None
    }
}

/// The byte that two hexadecimal digits write.
pub open spec fn byte_of(a: char, b: char) -> Option<u8> {
    match (nibble(a), nibble(b)) {
        (Some(x), Some(y)) => Some((x * 16 + y) as u8),
        _ => None,
    }
}

fn byte(a: char, b: char) -> (r: Option<u8>)
    ensures
        r == byte_of(a, b),
{
    match digit(b) {
        None => None,
        Some(y) => match digit(a) {
            Some(x) => Some(x * 16 + y),
            None => None,
        },
    }
}

/// The colour that the digits after the `#` write.
pub open spec fn colour_digits(h: Seq<char>) -> Option<Rgba> {
    if h.len() == 6 {
        match (byte_of(h[0], h[1]), byte_of(h[2], h[3]), byte_of(h[4], h[5])) {
            (Some(r), Some(g), Some(b)) => Some(opaque(r, g, b)),
            _ => None,
        }
    } else if h.len() == 8 {
        match (
            byte_of(h[0], h[1]),
            byte_of(h[2], h[3]),
            byte_of(h[4], h[5]),
            byte_of(h[6], h[7]),
        ) {
            (Some(r), Some(g), Some(b), Some(a)) => Some(Rgba { r, g, b, a }),
            _ => None,
        }
    } else if h.len() == 3 {
        match (nibble(h[0]), nibble(h[1]), nibble(h[2])) {
            (Some(r), Some(g), Some(b)) => Some(
                opaque((r * 17) as u8, (g * 17) as u8, (b * 17) as u8),
            ),
            _ => None,
        }
    } else {
        None
    }
}

/// The colour a text names.
pub open spec fn colour(s: Seq<char>) -> Option<Rgba> {
    let t = trim(s);
    if t.len() > 0 && t[0] == '#' {
        colour_digits(t.skip(1))
    } else {
        None
    }
}

/// Parse `#rgb`, `#rrggbb` or `#rrggbbaa`; any other text is no colour.
pub fn parse_hex(s: &str) -> (r: Option<Rgba>)
    ensures
        r == colour(s@),
{
    let all = chars_of(s);
    let t = trim_chars(all.as_slice());
    let n: usize = t.len();
    if n == 0 || t[0] != '#' {
        return None;
    }
    if n == 7 {
        match (byte(t[1], t[2]), byte(t[3], t[4]), byte(t[5], t[6])) {
            (Some(r), Some(g), Some(b)) => Some(rgb(r, g, b)),
            _ => None,
        }
    } else if n == 9 {
        match (byte(t[1], t[2]), byte(t[3], t[4]), byte(t[5], t[6]), byte(t[7], t[8])) {
            (Some(r), Some(g), Some(b), Some(a)) => Some(Rgba { r, g, b, a }),
            _ => None,
        }
    } else if n == 4 {
        match (digit(t[1]), digit(t[2]), digit(t[3])) {
            (Some(r), Some(g), Some(b)) => Some(rgb(r * 17, g * 17, b * 17)),
            _ => None,
        }
    } else {
        None
    }
}

/// A colour after a key of the configuration: what the key says, if that is a colour.
pub open spec fn overridden(dst: Rgba, src: Option<String>) -> Rgba {
    match src {
        Some(s) => match colour(s@) {
            Some(c) => c,
            None => dst,
        },
        None => dst,
    }
}

fn set(dst: &mut Rgba, src: &Option<String>)
    ensures
        *final(dst) == overridden(*old(dst), *src),
{
    if let Some(s) = src {
        if let Some(c) = parse_hex(s.as_str()) {
            *dst = c;
        }
    }
}

/// Common CJK font families to try when none is configured.
pub open spec fn cjk_families() -> Seq<Seq<char>> {
    seq![
        "Noto Sans CJK JP"@,
        "Noto Sans CJK SC"@,
        "Noto Sans CJK KR"@,
        "Source Han Sans"@,
        "Sarasa Gothic"@,
        "WenQuanYi Zen Hei"@,
    ]
}

impl Theme {
    /// The default theme with a configuration's overrides: each colour that the
    /// configuration writes as one, and the fonts as it has them.
    pub fn load(raw: Option<Raw>) -> (t: Theme)
        ensures
            t == match raw {
                None => default_theme(),
                Some(raw) => default_theme().with(raw),
            },
    {
        let mut t = Theme::default();
        match raw {
            None => {
                t
            },
            Some(raw) => {
                set(&mut t.backdrop, &raw.backdrop);
                set(&mut t.bg, &raw.bg);
                set(&mut t.card, &raw.card);
                set(&mut t.tile, &raw.tile);
                set(&mut t.tile_hover, &raw.tile_hover);
                set(&mut t.tile_selected, &raw.tile_selected);
                set(&mut t.thumb, &raw.thumb);
                set(&mut t.text, &raw.text);
                set(&mut t.text_dim, &raw.text_dim);
                set(&mut t.accent, &raw.accent);
                set(&mut t.screen_accent, &raw.screen_accent);
                set(&mut t.window_accent, &raw.window_accent);
                t.font = raw.font;
                t.font_path = raw.font_path;
                t.cjk_font = raw.cjk_font;
                t
            },
        }
    }

    /// The theme with a configuration's overrides.
    pub open spec fn with(self, raw: Raw) -> Theme {
        Theme {
            backdrop: overridden(self.backdrop, raw.backdrop),
            bg: overridden(self.bg, raw.bg),
            card: overridden(self.card, raw.card),
            tile: overridden(self.tile, raw.tile),
            tile_hover: overridden(self.tile_hover, raw.tile_hover),
            tile_selected: overridden(self.tile_selected, raw.tile_selected),
            thumb: overridden(self.thumb, raw.thumb),
            text: overridden(self.text, raw.text),
            text_dim: overridden(self.text_dim, raw.text_dim),
            accent: overridden(self.accent, raw.accent),
            screen_accent: overridden(self.screen_accent, raw.screen_accent),
            window_accent: overridden(self.window_accent, raw.window_accent),
            font: raw.font,
            font_path: raw.font_path,
            cjk_font: raw.cjk_font,
        }
    }

    /// The font families to try for CJK text, in order: the configured one, then the common
    /// ones. The first that is installed is used.
    pub fn cjk_candidates(&self) -> (r: Vec<String>)
        ensures
            views(r@) == match owned(self.cjk_font) {
                Some(f) => seq![f] + cjk_families(),
                None => cjk_families(),
            },
    {
        let mut out: Vec<String> = Vec::new();
        if let Some(f) = &self.cjk_font {
            out.push(f.clone());
        }
        out.push(String::from_str("Noto Sans CJK JP"));
        out.push(String::from_str("Noto Sans CJK SC"));
        out.push(String::from_str("Noto Sans CJK KR"));
        out.push(String::from_str("Source Han Sans"));
        out.push(String::from_str("Sarasa Gothic"));
        out.push(String::from_str("WenQuanYi Zen Hei"));
        assert(views(out@) =~= match owned(self.cjk_font) {
            Some(f) => seq![f] + cjk_families(),
            None => cjk_families(),
        });
        out
    }
}

/// Where the theme is configured.
pub open spec fn config_path_spec(
    config_home: Option<Seq<char>>,
    home: Option<Seq<char>>,
) -> Option<Seq<char>> {
    let base = match config_home {
        Some(c) => Some(c),
        None => match home {
            Some(h) => Some(below(h, ".config"@)),
            None => None,
        },
    };
    match base {
        Some(b) => Some(below(below(b, "wlr-chooser"@), "theme.toml"@)),
        None => None,
    }
}

/// Where the theme is configured: below `$XDG_CONFIG_HOME`, else below `.config` in the home
/// directory.
pub fn config_path(config_home: Option<&str>, home: Option<&str>) -> (r: Option<String>)
    ensures
        owned(r) == config_path_spec(opt(config_home), opt(home)),
{
    let base = match config_home {
        Some(c) => String::from_str(c),
        None => match home {
            Some(h) => join_path(h, ".config"),
            None => {
                return None;
            },
        },
    };
    let dir = join_path(base.as_str(), "wlr-chooser");
    Some(join_path(dir.as_str(), "theme.toml"))
}

/// Hexadecimal digits count up from nought, through the letters, capital or small.
pub proof fn digits_count_up(c: char, d: char)
    requires
        c as int + 1 == d as int,
        ('0' <= c && d <= '9') || ('a' <= c && d <= 'f') || ('A' <= c && d <= 'F'),
    ensures
        nibble(d) matches Some(n) && nibble(c) == Some((n - 1) as u8),
        nibble('0') == Some(0u8),
        nibble('a') == Some(10u8),
        nibble('A') == Some(10u8),
{
}

/// A short colour is the long one with each digit twice, and a colour without an alpha is opaque:
/// the same as one that ends in `ff`.
pub proof fn short_colours_stand_for_long_ones(a: char, b: char, c: char, h: Seq<char>)
    requires
        h.len() == 6,
    ensures
        colour_digits(seq![a, b, c]) == colour_digits(seq![a, a, b, b, c, c]),
        colour_digits(h) == colour_digits(h + seq!['f', 'f']),
{
    assert(nibble('f') == Some(15u8));
}

/// The pairs of a colour's digits are its red, its green, its blue and its alpha, each the higher
/// digit first.
pub proof fn a_colour_is_read_by_pairs(s: &str, r: Option<Rgba>)
    requires
        call_ensures(parse_hex, (s,), r),
        s@.len() == 9,
        s@[0] == '#',
        forall|i: int| 1 <= i < 9 ==> nibble(#[trigger] s@[i]) is Some,
    ensures
        r matches Some(c) && c.r == 16 * nibble(s@[1])->0 + nibble(s@[2])->0 && c.g == 16 * nibble(
            s@[3],
        )->0 + nibble(s@[4])->0 && c.b == 16 * nibble(s@[5])->0 + nibble(s@[6])->0 && c.a == 16
            * nibble(s@[7])->0 + nibble(s@[8])->0,
{
    assert(nibble(s@[8]) is Some);
    crate::text::trimmed_already(s@);
    let h = s@.skip(1);
    assert forall|i: int| 0 <= i < 8 implies nibble(#[trigger] h[i]) is Some && nibble(h[i])->0
        < 16 by {
        assert(h[i] == s@[i + 1]);
    }
    assert(nibble(h[0]) is Some && nibble(h[1]) is Some && nibble(h[2]) is Some && nibble(h[3])
        is Some);
    assert(nibble(h[4]) is Some && nibble(h[5]) is Some && nibble(h[6]) is Some && nibble(h[7])
        is Some);
}

/// Nothing is a colour that does not begin with the sign or has another count of digits.
pub proof fn what_is_no_colour(s: &str, r: Option<Rgba>)
    requires
        call_ensures(parse_hex, (s,), r),
        s@.len() > 0,
        !crate::text::is_space(s@[0]),
        !crate::text::is_space(s@.last()),
    ensures
        r is Some ==> s@[0] == '#' && (s@.len() == 4 || s@.len() == 7 || s@.len() == 9),
        r is Some && s@.len() < 9 ==> r->0.a == 255,
{
    crate::text::trimmed_already(s@);
}

/// A theme's key sets its own colour where it reads as one, and a colour whose key is left out or
/// does not read as one is the default.
pub proof fn each_key_sets_its_own_colour(raw: Raw, t: Theme, d: Theme)
    requires
        call_ensures(Theme::load, (Some(raw),), t),
        call_ensures(Theme::load, (None,), d),
    ensures
        t.backdrop == raw_or(raw.backdrop, d.backdrop),
        t.bg == raw_or(raw.bg, d.bg),
        t.card == raw_or(raw.card, d.card),
        t.tile == raw_or(raw.tile, d.tile),
        t.tile_hover == raw_or(raw.tile_hover, d.tile_hover),
        t.tile_selected == raw_or(raw.tile_selected, d.tile_selected),
        t.thumb == raw_or(raw.thumb, d.thumb),
        t.text == raw_or(raw.text, d.text),
        t.text_dim == raw_or(raw.text_dim, d.text_dim),
        t.accent == raw_or(raw.accent, d.accent),
        t.screen_accent == raw_or(raw.screen_accent, d.screen_accent),
        t.window_accent == raw_or(raw.window_accent, d.window_accent),
        t.font == raw.font,
        t.font_path == raw.font_path,
        t.cjk_font == raw.cjk_font,
{
}

/// The colour that `s` spells, or else `d`.
pub open spec fn raw_or(s: Option<String>, d: Rgba) -> Rgba {
    if s is Some && colour(s->0@) is Some {
        colour(s->0@)->0
    } else {
        d
    }
}

/// The font that was chosen for the scripts of East Asia is tried first, then the usual ones.
pub proof fn the_chosen_font_is_tried_first(t: Theme, r: Vec<String>)
    requires
        call_ensures(Theme::cjk_candidates, (&t,), r),
    ensures
        t.cjk_font matches Some(f) ==> r@.len() == 7 && r@[0]@ == f@ && r@[1]@
            == "Noto Sans CJK JP"@,
        t.cjk_font is None ==> r@.len() == 6 && r@[0]@ == "Noto Sans CJK JP"@,
{
    let v = views(r@);
    assert(v.len() == r@.len());
    if r@.len() > 0 {
        assert(v[0] == r@[0]@);
    }
    if r@.len() > 1 {
        assert(v[1] == r@[1]@);
    }
}

/// A byte written in hexadecimal reads back, in small letters and in capitals.
pub proof fn a_byte_reads_back(n: u8, upper: bool)
    ensures
        ({
            let s = crate::text::hex(n as nat, 2, upper);
            s.len() == 2 && byte_of(s[0], s[1]) == Some(n)
        }),
{
    let (high, low) = (n as nat / 16, n as nat % 16);
    reveal_with_fuel(crate::text::hex, 3);
    assert(high % 16 == high);
    let s = crate::text::hex(n as nat, 2, upper);
    assert(s =~= seq![crate::text::hex_char(high, upper), crate::text::hex_char(low, upper)]);
    digit_reads_back(high, upper);
    digit_reads_back(low, upper);
}

proof fn digit_reads_back(d: nat, upper: bool)
    requires
        d < 16,
    ensures
        nibble(crate::text::hex_char(d, upper)) == Some(d as u8),
{
}

/// The theme lies in the directory that the environment names for configuration, or in the usual
/// one of the home directory.
pub proof fn the_theme_lies_in_the_configuration(
    config_home: Option<&str>,
    home: Option<&str>,
    r: Option<String>,
)
    requires
        call_ensures(config_path, (config_home, home), r),
    ensures
        config_home matches Some(c) ==> (r matches Some(p) && p@ == below(
            below(c@, "wlr-chooser"@),
            "theme.toml"@,
        )),
        config_home is None ==> (home matches Some(h) ==> (r matches Some(p) && p@ == below(
            below(below(h@, ".config"@), "wlr-chooser"@),
            "theme.toml"@,
        ))),
        config_home is None && home is None ==> r is None,
{
}

} // verus!
