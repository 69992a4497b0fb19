//! Tile hints: one key per tile, taken from a physical keyboard row and labelled with the
//! character the *active* layout prints on it.
//!
//! A fixed alphabet would be a trap on anything but the layout it was written for: on AZERTY
//! a tile labelled `a` is reached by pressing the key QWERTY calls `q`. So a hint is a
//! physical position (an evdev code) first, and its label is read out of the compositor's
//! keymap. Matching is on the position too, so what is displayed and what is pressed cannot
//! drift apart.

use crate::text::{char_is_control, char_is_space, chars_of, is_control, is_space, push_char};
use vstd::prelude::*;

verus! {

/// Wayland reports a key by its evdev code; xkb numbers the same key eight higher.
pub const EVDEV_OFFSET: u32 = 8;

/// Which physical row the hints are taken from.
#[derive(Clone, Copy, Debug, PartialEq, Eq, Structural)]
pub enum HintRow {
    /// The home row, under the resting fingers. Prints a letter on every common layout,
    /// which is what makes it the default.
    Home,
    /// The row above the letters. One more key than the home row, and a natural order
    /// wherever it prints digits, which is not everywhere.
    Top,
}

impl HintRow {
    /// The physical keys of the row: the home row without the two keys under the little
    /// fingers' stretch, and the row above the letters.
    pub open spec fn codes(self) -> Seq<u32> {
        match self {
            HintRow::Home => Seq::new(9, |i: int| (30 + i) as u32),
            HintRow::Top => Seq::new(10, |i: int| (2 + i) as u32),
        }
    }

    /// The physical keys of this row, in reading order.
    pub fn positions(self) -> (r: Vec<u32>)
        ensures
            r@ == self.codes(),
    {
        let (first, n): (u32, u32) = match self {
            HintRow::Home => (30, 9),
            HintRow::Top => (2, 10),
        };
        let mut out: Vec<u32> = Vec::new();
        for i in 0..n
            invariant
                (first, n) == match self {
                    HintRow::Home => (30u32, 9u32),
                    HintRow::Top => (2u32, 10u32),
                },
                out@.len() == i,
                forall|j: int| 0 <= j < i ==> out@[j] == first + j,
        {
            out.push(first + i);
        }
        assert(out@ =~= self.codes());
        out
    }
}

/// One tile's hint: the key to press, and what the active layout prints on it.
#[derive(Debug, PartialEq, Eq)]
pub struct Hint {
    /// The physical key, as an evdev code: what a Wayland key event carries.
    pub code: u32,
    /// The character to display, as produced by the active layout with no modifier.
    pub label: String,
}

/// A hint's key and label.
pub type HintView = (u32, Seq<char>);

impl View for Hint {
    type V = HintView;

    open spec fn view(&self) -> HintView {
        (self.code, self.label@)
    }
}

/// The keys and labels of the hints.
pub open spec fn hint_views(v: Seq<Hint>) -> Seq<HintView> {
    v.map_values(|h: Hint| h@)
}

/// What a tile can carry of what a key prints: one glyph, standing on its own.
pub open spec fn label_of(text: Seq<char>) -> Option<char> {
    if text.len() == 1 && !is_control(text[0]) && !is_space(text[0]) {
        Some(text[0])
    } else {
        None
    }
}

/// What a key prints with no modifier held, when that is a single character a tile can
/// carry.
///
/// A position bound to a modifier or a function prints nothing, and a dead key prints
/// nothing until it is composed with the next one: neither can label a tile, and the
/// position is passed over rather than shown blank.
pub fn label(text: &str) -> (r: Option<String>)
    ensures
        match r {
            Some(s) => label_of(text@) matches Some(c) && s@ == seq![c],
            None => label_of(text@) is None,
        },
{
    let chars = chars_of(text);
    if chars.len() != 1 || char_is_control(chars[0]) || char_is_space(chars[0]) {
        return None;
    }
    let mut s = String::new();
    push_char(&mut s, chars[0]);
    assert(s@ =~= seq![chars@[0]]);
    Some(s)
}

/// The hints that the first `n` keys give, by what each prints.
pub open spec fn labelled(positions: Seq<u32>, texts: Seq<Seq<char>>, n: int) -> Seq<HintView>
    decreases n,
{
    if n <= 0 {
        Seq::empty()
    } else {
        match label_of(texts[n - 1]) {
            Some(c) => labelled(positions, texts, n - 1).push((positions[n - 1], seq![c])),
            None => labelled(positions, texts, n - 1),
        }
    }
}

/// What the keys of a layout print with no modifier held, by evdev code. A keymap that does
/// not compile has no keys.
#[derive(Debug)]
pub struct Keymap {
    pub keys: Vec<(u32, String)>,
}

/// What the key of that code prints, from the `k`-th entry on: the first that has it, nothing
/// without one.
pub open spec fn prints(keys: Seq<(u32, String)>, code: u32, k: int) -> Seq<char>
    decreases keys.len() - k,
{
    if k < 0 || k >= keys.len() {
        Seq::empty()
    } else if keys[k].0 == code {
        keys[k].1@
    } else {
        prints(keys, code, k + 1)
    }
}

impl Keymap {
    /// What each of those keys prints.
    pub open spec fn texts(&self, positions: Seq<u32>) -> Seq<Seq<char>> {
        Seq::new(positions.len(), |i: int| prints(self.keys@, positions[i], 0))
    }

    /// The hints those keys offer.
    pub open spec fn offers(&self, positions: Seq<u32>) -> Seq<HintView> {
        labelled(positions, self.texts(positions), positions.len() as int)
    }

    /// What the key of that code prints.
    pub fn text(&self, code: u32) -> (r: String)
        ensures
            r@ == prints(self.keys@, code, 0),
    {
        for i in 0..self.keys.len()
            invariant
                prints(self.keys@, code, 0) == prints(self.keys@, code, i as int),
        {
            if self.keys[i].0 == code {
                return self.keys[i].1.clone();
            }
        }
        let none = String::new();
        assert(none@ =~= Seq::empty());
        none
    }
}

/// The hints `row` offers under `keymap`, in tile order.
///
/// A keymap that does not compile, or a row whose keys print nothing usable, yields fewer
/// hints, or none. Callers hand them out to the first tiles and leave the rest without a
/// shortcut, so a hint is never shown that cannot be typed.
pub fn hints(keymap: &Keymap, row: HintRow) -> (r: Vec<Hint>)
    ensures
        hint_views(r@) == keymap.offers(row.codes()),
{
    hints_at(keymap, &row.positions())
}

/// The hints `positions` offers under `keymap`, skipping the positions that print nothing
/// displayable.
pub fn hints_at(keymap: &Keymap, positions: &Vec<u32>) -> (r: Vec<Hint>)
    ensures
        hint_views(r@) == keymap.offers(positions@),
{
    let ghost texts = keymap.texts(positions@);
    let mut out: Vec<Hint> = Vec::new();
    for i in 0..positions.len()
        invariant
            texts == keymap.texts(positions@),
            hint_views(out@) == labelled(positions@, texts, i as int),
    {
        let text = keymap.text(positions[i]);
        if let Some(label) = label(text.as_str()) {
            let ghost before = out@;
            let hint = Hint { code: positions[i], label };
            out.push(hint);
            assert(hint_views(out@) =~= hint_views(before).push(hint@));
        }
    }
    out
}

/// The hint at `k` is of one of the first `n` keys.
proof fn hints_are_of_keys(positions: Seq<u32>, texts: Seq<Seq<char>>, n: int, k: int) -> (i: int)
    requires
        0 <= n <= positions.len(),
        texts.len() == positions.len(),
        0 <= k < labelled(positions, texts, n).len(),
    ensures
        0 <= i < n,
        labelled(positions, texts, n)[k].0 == positions[i],
        label_of(texts[i]) matches Some(c) && labelled(positions, texts, n)[k].1 == seq![c],
        labelled(positions, texts, i).len() == k,
    decreases n,
{
    if k < labelled(positions, texts, n - 1).len() {
        hints_are_of_keys(positions, texts, n - 1, k)
    } else {
        n - 1
    }
}

/// There are no fewer hints of more keys.
proof fn hints_add_up(positions: Seq<u32>, texts: Seq<Seq<char>>, m: int, n: int)
    requires
        0 <= m <= n <= positions.len(),
    ensures
        labelled(positions, texts, m).len() <= labelled(positions, texts, n).len(),
    decreases n,
{
    if m < n {
        hints_add_up(positions, texts, m, n - 1);
    }
}

/// Hints come back in reading order on their own keys: each names what its key prints, and
/// the keys of two hints stand in the row as the hints do, the one further right with the
/// larger code.
pub proof fn hints_stand_in_reading_order(keymap: Keymap, row: HintRow, a: int, b: int)
    requires
        0 <= a < b < keymap.offers(row.codes()).len(),
    ensures
        exists|i: int, j: int|
            0 <= i < j < row.codes().len() && keymap.offers(row.codes())[a].0 == #[trigger]
                row.codes()[i] && keymap.offers(row.codes())[b].0 == #[trigger] row.codes()[j]
                && (label_of(prints(keymap.keys@, row.codes()[i], 0)) matches Some(c)
                && keymap.offers(row.codes())[a].1 == seq![c]),
        row.codes().contains(keymap.offers(row.codes())[a].0),
        row.codes().contains(keymap.offers(row.codes())[b].0),
        keymap.offers(row.codes())[a].0 < keymap.offers(row.codes())[b].0,
{
    let codes = row.codes();
    let texts = keymap.texts(codes);
    let n = codes.len() as int;
    let i = hints_are_of_keys(codes, texts, n, a);
    let j = hints_are_of_keys(codes, texts, n, b);
    if j <= i {
        hints_add_up(codes, texts, j, i);
    }
    assert(texts[i] == prints(keymap.keys@, codes[i], 0));
    assert(0 <= i < j < codes.len() && codes[i] != codes[j]);
}

/// No hint is shown that cannot be typed: a label is one character that is neither white
/// space nor a control character.
pub proof fn a_hint_can_be_typed(keymap: Keymap, positions: Seq<u32>, k: int)
    requires
        0 <= k < keymap.offers(positions).len(),
    ensures
        keymap.offers(positions)[k].1.len() == 1,
        !is_space(keymap.offers(positions)[k].1[0]),
        !is_control(keymap.offers(positions)[k].1[0]),
{
    let _ = hints_are_of_keys(
        positions,
        keymap.texts(positions),
        positions.len() as int,
        k,
    );
}

/// The rows of keys that hints are taken from, from left to right: nine from the one that A is
/// on, ten from that of the digits.
pub proof fn rows_are_read_from_the_left(row: HintRow, r: Vec<u32>, i: int)
    requires
        call_ensures(HintRow::positions, (row,), r),
        0 <= i < r@.len(),
    ensures
        row == HintRow::Home ==> r@.len() == 9 && r@[i] == 30 + i,
        row == HintRow::Top ==> r@.len() == 10 && r@[i] == 2 + i,
{
}

/// A label is what the key prints, where that is one character that shows.
pub proof fn a_label_is_what_the_key_prints(text: &str, r: Option<String>)
    requires
        call_ensures(label, (text,), r),
    ensures
        r matches Some(s) ==> s@ == text@,
        text@.len() != 1 ==> r is None,
        text@.len() == 1 && '!' <= text@[0] <= '~' ==> r is Some,
        text@.len() == 1 && text@[0] <= ' ' ==> r is None,
{
    if let Some(s) = r {
        assert(s@ =~= text@);
    }
}

/// A key prints what the keymap says of its place first, and nothing where it says nothing.
pub proof fn a_key_prints_what_the_keymap_says(k: Keymap, code: u32, r: String, i: int)
    requires
        call_ensures(Keymap::text, (&k, code), r),
    ensures
        0 <= i < k.keys@.len() && k.keys@[i].0 == code && (forall|j: int|
            0 <= j < i ==> (#[trigger] k.keys@[j]).0 != code) ==> r@ == k.keys@[i].1@,
        (forall|j: int| 0 <= j < k.keys@.len() ==> (#[trigger] k.keys@[j]).0 != code) ==> r@.len()
            == 0,
{
    if 0 <= i < k.keys@.len() && k.keys@[i].0 == code && (forall|j: int|
        0 <= j < i ==> (#[trigger] k.keys@[j]).0 != code) {
        printed(k.keys@, code, 0, i);
    }
    if forall|j: int| 0 <= j < k.keys@.len() ==> (#[trigger] k.keys@[j]).0 != code {
        not_printed(k.keys@, code, 0);
    }
}

proof fn printed(keys: Seq<(u32, String)>, code: u32, k: int, i: int)
    requires
        0 <= k <= i < keys.len(),
        keys[i].0 == code,
        forall|j: int| k <= j < i ==> (#[trigger] keys[j]).0 != code,
    ensures
        prints(keys, code, k) == keys[i].1@,
    decreases i - k,
{
    if k < i {
        assert(keys[k].0 != code);
        printed(keys, code, k + 1, i);
    }
}

proof fn not_printed(keys: Seq<(u32, String)>, code: u32, k: int)
    requires
        0 <= k,
        forall|j: int| 0 <= j < keys.len() ==> (#[trigger] keys[j]).0 != code,
    ensures
        prints(keys, code, k) == Seq::<char>::empty(),
    decreases keys.len() - k,
{
    if k < keys.len() {
        assert(keys[k].0 != code);
        not_printed(keys, code, k + 1);
    }
}

/// Every key of the row that prints something gets a hint.
pub proof fn every_printing_key_gets_a_hint(
    positions: Seq<u32>,
    texts: Seq<Seq<char>>,
    n: int,
    i: int,
)
    requires
        0 <= i < n <= positions.len(),
        texts.len() == positions.len(),
        texts[i].len() == 1,
        '!' <= texts[i][0] <= '~',
    ensures
        labelled(positions, texts, n).contains((positions[i], texts[i])),
    decreases n,
{
    let rest = labelled(positions, texts, n - 1);
    if i == n - 1 {
        let own = (positions[i], seq![texts[i][0]]);
        assert(seq![texts[i][0]] =~= texts[i]);
        assert(rest.push(own).last() == own);
    } else {
        every_printing_key_gets_a_hint(positions, texts, n - 1, i);
        let own = (positions[i], texts[i]);
        let k = choose|k: int| 0 <= k < rest.len() && rest[k] == own;
        assert(labelled(positions, texts, n)[k] == own);
    }
}

} // verus!
