//! Characters and decimal numbers.
//!
//! Strings are taken apart as sequences of characters, so every statement here is about
//! `Seq<char>`.

use vstd::prelude::*;

verus! {

/// `String::push`: the character is appended at the end.
#[verifier::external_body]
pub(crate) fn push_char(s: &mut String, c: char)
    ensures
        final(s)@ == old(s)@.push(c),
{
    s.push(c)
}

/// What `str::to_lowercase` makes of a text. The mapping is Unicode's.
pub uninterp spec fn lowercase(s: Seq<char>) -> Seq<char>;

/// `str::to_lowercase`: the lowercase equivalent of `s`, a function of its characters.
#[verifier::external_body]
pub(crate) fn to_lowercase(s: &str) -> (r: String)
    ensures
        r@ == lowercase(s@),
{
    s.to_lowercase()
}

/// Unicode's `White_Space` property.
pub open spec fn is_space(c: char) -> bool {
    ||| '\u{9}' <= c <= '\u{d}'
    ||| c == ' '
    ||| c == '\u{85}'
    ||| c == '\u{a0}'
    ||| c == '\u{1680}'
    ||| '\u{2000}' <= c <= '\u{200a}'
    ||| c == '\u{2028}'
    ||| c == '\u{2029}'
    ||| c == '\u{202f}'
    ||| c == '\u{205f}'
    ||| c == '\u{3000}'
}

/// Unicode's `Cc` category: the control codes.
pub open spec fn is_control(c: char) -> bool {
    c <= '\u{1f}' || '\u{7f}' <= c <= '\u{9f}'
}

/// Whether `c` is white space.
pub fn char_is_space(c: char) -> (r: bool)
    ensures
        r == is_space(c),
{
    ('\u{9}' <= c && c <= '\u{d}') || c == ' ' || c == '\u{85}' || c == '\u{a0}' || c == '\u{1680}'
        || ('\u{2000}' <= c && c <= '\u{200a}') || c == '\u{2028}' || c == '\u{2029}' || c
        == '\u{202f}' || c == '\u{205f}' || c == '\u{3000}'
}

/// Whether `c` is a control code.
pub fn char_is_control(c: char) -> (r: bool)
    ensures
        r == is_control(c),
{
    c <= '\u{1f}' || ('\u{7f}' <= c && c <= '\u{9f}')
}

/// The characters of a text, in order.
pub fn chars_of(s: &str) -> (r: Vec<char>)
    ensures
        r@ == s@,
{
    let mut out: Vec<char> = Vec::new();
    for c in it: s.chars()
        invariant
            it.seq() == s@,
            out@ == s@.take(it.index() as int),
    {
        out.push(c);
    }
    out
}

/// The text these characters spell.
pub fn string_of(v: &[char]) -> (r: String)
    ensures
        r@ == v@,
{
    let mut out = String::new();
    for i in 0..v.len()
        invariant
            out@ == v@.take(i as int),
    {
        push_char(&mut out, v[i]);
        assert(v@.take(i + 1) == v@.take(i as int).push(v@[i as int]));
    }
    out
}

/// Whether two texts are the same, character by character.
pub fn same(a: &str, b: &str) -> (r: bool)
    ensures
        r == (a@ == b@),
{
    let x = chars_of(a);
    let y = chars_of(b);
    same_chars(x.as_slice(), y.as_slice())
}

/// Whether two runs of characters are the same.
pub fn same_chars(a: &[char], b: &[char]) -> (r: bool)
    ensures
        r == (a@ == b@),
{
    if a.len() != b.len() {
        return false;
    }
    for i in 0..a.len()
        invariant
            a@.len() == b@.len(),
            forall|j: int| 0 <= j < i ==> a@[j] == b@[j],
    {
        if a[i] != b[i] {
            return false;
        }
    }
    assert(a@ =~= b@);
    true
}

/// The characters of `s` from position `from` up to `to`.
pub fn slice_chars(s: &[char], from: usize, to: usize) -> (r: Vec<char>)
    requires
        from <= to <= s@.len(),
    ensures
        r@ == s@.subrange(from as int, to as int),
{
    let mut out: Vec<char> = Vec::new();
    for i in from..to
        invariant
            from <= to <= s@.len(),
            out@ == s@.subrange(from as int, i as int),
    {
        out.push(s[i]);
    }
    out
}

/// The text without its leading white space.
pub open spec fn trim_start(s: Seq<char>) -> Seq<char>
    decreases s.len(),
{
    if s.len() > 0 && is_space(s[0]) {
        trim_start(s.drop_first())
    } else {
        s
    }
}

/// The text without its trailing white space.
pub open spec fn trim_end(s: Seq<char>) -> Seq<char>
    decreases s.len(),
{
    if s.len() > 0 && is_space(s.last()) {
        trim_end(s.drop_last())
    } else {
        s
    }
}

/// The text without white space at either end.
pub open spec fn trim(s: Seq<char>) -> Seq<char> {
    trim_end(trim_start(s))
}

/// A text with no white space at either end is trimmed already.
pub proof fn trimmed_already(s: Seq<char>)
    requires
        s.len() > 0,
        !is_space(s[0]),
        !is_space(s.last()),
    ensures
        trim(s) == s,
{
}

/// The characters left of `s` once white space is off both ends.
pub fn trim_chars(s: &[char]) -> (r: Vec<char>)
    ensures
        r@ == trim(s@),
{
    let mut from: usize = 0;
    assert(s@.skip(0) == s@);
    while from < s.len() && char_is_space(s[from])
        invariant
            from <= s@.len(),
            trim_start(s@) == trim_start(s@.skip(from as int)),
        decreases s@.len() - from,
    {
        assert(s@.skip(from as int).drop_first() == s@.skip(from + 1));
        from = from + 1;
    }
    assert(trim_start(s@) == s@.skip(from as int));
    let mut to: usize = s.len();
    while to > from && char_is_space(s[to - 1])
        invariant
            from <= to <= s@.len(),
            trim(s@) == trim_end(s@.subrange(from as int, to as int)),
        decreases to,
    {
        assert(s@.subrange(from as int, to as int).drop_last() == s@.subrange(
            from as int,
            to - 1,
        ));
        to = to - 1;
    }
    slice_chars(s, from, to)
}

/// Where the first character of `s` that is one of `seps` stands.
pub open spec fn find_any(s: Seq<char>, seps: Seq<char>) -> Option<int>
    decreases s.len(),
{
    if s.len() == 0 {
        None
    } else if seps.contains(s[0]) {
        Some(0)
    } else {
        match find_any(s.drop_first(), seps) {
            Some(i) => Some(i + 1),
            None => None,
        }
    }
}

/// `find_any` finds a separator, and none stands before it.
pub proof fn find_any_is_first(s: Seq<char>, seps: Seq<char>)
    ensures
        match find_any(s, seps) {
            Some(i) => 0 <= i < s.len() && seps.contains(s[i]) && forall|j: int|
                0 <= j < i ==> !seps.contains(#[trigger] s[j]),
            None => forall|j: int| 0 <= j < s.len() ==> !seps.contains(#[trigger] s[j]),
        },
    decreases s.len(),
{
    if s.len() > 0 && !seps.contains(s[0]) {
        let t = s.drop_first();
        find_any_is_first(t, seps);
        assert forall|j: int|
            0 <= j < s.len() && (match find_any(t, seps) {
                Some(i) => j < i + 1,
                None => true,
            }) implies !seps.contains(#[trigger] s[j]) by {
            if j > 0 {
                assert(s[j] == t[j - 1]);
            }
        }
    }
}

/// A separator with none before it is the one `find_any` finds.
pub proof fn find_any_unique(s: Seq<char>, seps: Seq<char>, i: int)
    requires
        0 <= i < s.len(),
        seps.contains(s[i]),
        forall|j: int| 0 <= j < i ==> !seps.contains(#[trigger] s[j]),
    ensures
        find_any(s, seps) == Some(i),
{
    find_any_is_first(s, seps);
}

/// Whether `c` is one of `set`.
pub fn among(c: char, set: &[char]) -> (r: bool)
    ensures
        r == set@.contains(c),
{
    for i in 0..set.len()
        invariant
            forall|j: int| 0 <= j < i ==> set@[j] != c,
    {
        if set[i] == c {
            return true;
        }
    }
    false
}

/// Where the first character of `s` from `from` on that is one of `seps` stands.
pub fn position_any(s: &[char], seps: &[char]) -> (r: Option<usize>)
    ensures
        match r {
            Some(i) => find_any(s@, seps@) == Some(i as int),
            None => find_any(s@, seps@) is None,
        },
        r matches Some(i) ==> i < s@.len(),
{
    proof {
        find_any_is_first(s@, seps@);
    }
    for i in 0..s.len()
        invariant
            forall|j: int| 0 <= j < i ==> !seps@.contains(#[trigger] s@[j]),
    {
        if among(s[i], seps) {
            proof {
                find_any_unique(s@, seps@, i as int);
            }
            return Some(i);
        }
    }
    None
}

/// What stands before and after the first of `seps` in `s`.
pub open spec fn split_once(s: Seq<char>, seps: Seq<char>) -> Option<(Seq<char>, Seq<char>)> {
    match find_any(s, seps) {
        Some(i) => Some((s.take(i), s.skip(i + 1))),
        None => None,
    }
}

/// The characters before and after the first of `seps` in `s`.
pub fn split_once_chars(s: &[char], seps: &[char]) -> (r: Option<(Vec<char>, Vec<char>)>)
    ensures
        match r {
            Some((a, b)) => split_once(s@, seps@) == Some((a@, b@)),
            None => split_once(s@, seps@) is None,
        },
{
    match position_any(s, seps) {
        None => None,
        Some(i) => {
            let n: usize = s.len();
            let a = slice_chars(s, 0, i);
            let b = slice_chars(s, i + 1, n);
            assert(a@ == s@.take(i as int));
            assert(b@ == s@.skip(i + 1));
            Some((a, b))
        },
    }
}

/// An ASCII decimal digit.
pub open spec fn is_digit(c: char) -> bool {
    '0' <= c <= '9'
}

/// The number a digit stands for.
pub open spec fn digit_value(c: char) -> nat {
    (c as int - '0' as int) as nat
}

/// The number a run of digits stands for, most significant first.
pub open spec fn decimal_value(s: Seq<char>) -> nat
    decreases s.len(),
{
    if s.len() == 0 {
        0
    } else {
        decimal_value(s.drop_last()) * 10 + digit_value(s.last())
    }
}

/// At least one digit, and nothing else.
pub open spec fn all_digits(s: Seq<char>) -> bool {
    s.len() > 0 && forall|i: int| 0 <= i < s.len() ==> is_digit(#[trigger] s[i])
}

/// The natural number `s` spells, with an optional plus sign before it.
pub open spec fn parse_nat(s: Seq<char>) -> Option<nat> {
    let digits = if s.len() > 0 && s[0] == '+' {
        s.skip(1)
    } else {
        s
    };
    if all_digits(digits) {
        Some(decimal_value(digits))
    } else {
        None
    }
}

/// The integer `s` spells, with an optional sign before it.
pub open spec fn parse_int(s: Seq<char>) -> Option<int> {
    if s.len() > 0 && s[0] == '-' {
        if all_digits(s.skip(1)) {
            Some(-decimal_value(s.skip(1)))
        } else {
            None
        }
    } else {
        match parse_nat(s) {
            Some(n) => Some(n as int),
            None => None,
        }
    }
}

/// The 32-bit natural number `s` spells: what it spells, where that fits.
pub open spec fn parse_u32_spec(s: Seq<char>) -> Option<u32> {
    match parse_nat(s) {
        Some(n) => if n <= u32::MAX {
            Some(n as u32)
        } else {
            None
        },
        None => None,
    }
}

/// The 32-bit integer `s` spells: what it spells, where that fits.
pub open spec fn parse_i32_spec(s: Seq<char>) -> Option<i32> {
    match parse_int(s) {
        Some(n) => if i32::MIN <= n <= i32::MAX {
            Some(n as i32)
        } else {
            None
        },
        None => None,
    }
}

/// The value of the digits of `s` from `from` on, if they are digits and the value is at
/// most `max`.
fn digits_up_to(s: &[char], from: usize, max: u64) -> (r: Option<u64>)
    requires
        from <= s@.len(),
        max <= 0xffff_ffff,
    ensures
        r == (if all_digits(s@.skip(from as int)) && decimal_value(s@.skip(from as int)) <= max {
            Some(decimal_value(s@.skip(from as int)) as u64)
        } else {
            None
        }),
{
    let ghost d = s@.skip(from as int);
    if from == s.len() {
        return None;
    }
    let mut acc: u64 = 0;
    let mut over = false;
    assert(d.take(0) =~= Seq::<char>::empty());
    for i in from..s.len()
        invariant
            from <= s@.len(),
            max <= 0xffff_ffff,
            d == s@.skip(from as int),
            forall|j: int| 0 <= j < i - from ==> is_digit(#[trigger] d[j]),
            !over ==> acc == decimal_value(d.take(i - from)) && acc <= max,
            over ==> decimal_value(d.take(i - from)) > max,
    {
        let c = s[i];
        if c < '0' || '9' < c {
            assert(!is_digit(d[i - from]));
            return None;
        }
        assert(d[i - from] == c);
        assert(d.take(i - from + 1).drop_last() =~= d.take(i - from));
        if !over {
            acc = acc * 10 + (c as u64 - '0' as u64);
            if acc > max {
                over = true;
            }
        }
    }
    assert(d.take(s.len() - from) =~= d);
    if over {
        None
    } else {
        Some(acc)
    }
}

/// The 32-bit natural number `s` spells.
pub fn parse_u32(s: &[char]) -> (r: Option<u32>)
    ensures
        r == parse_u32_spec(s@),
{
    assert(s@.skip(0) =~= s@);
    let from: usize = if s.len() > 0 && s[0] == '+' {
        1
    } else {
        0
    };
    match digits_up_to(s, from, 0xffff_ffff) {
        Some(n) => Some(n as u32),
        None => None,
    }
}

/// The 32-bit integer `s` spells.
pub fn parse_i32(s: &[char]) -> (r: Option<i32>)
    ensures
        r == parse_i32_spec(s@),
{
    assert(s@.skip(0) =~= s@);
    if s.len() > 0 && s[0] == '-' {
        match digits_up_to(s, 1, 0x8000_0000) {
            Some(n) => Some((-(n as i64)) as i32),
            None => None,
        }
    } else {
        let from: usize = if s.len() > 0 && s[0] == '+' {
            1
        } else {
            0
        };
        match digits_up_to(s, from, 0x7fff_ffff) {
            Some(n) => Some(n as i32),
            None => None,
        }
    }
}

/// The digit standing for `d`.
pub open spec fn digit_char(d: nat) -> char {
    ('0' as nat + d) as char
}

/// A natural number in decimal.
pub open spec fn decimal(n: nat) -> Seq<char>
    decreases n,
{
    if n < 10 {
        seq![digit_char(n)]
    } else {
        decimal(n / 10).push(digit_char(n % 10))
    }
}

/// An integer in decimal.
pub open spec fn signed_decimal(n: int) -> Seq<char> {
    if n < 0 {
        seq!['-'] + decimal((-n) as nat)
    } else {
        decimal(n as nat)
    }
}

/// What is printed in decimal reads back as the same number.
pub proof fn decimal_reads_back(n: nat)
    ensures
        all_digits(decimal(n)),
        decimal_value(decimal(n)) == n,
        parse_nat(decimal(n)) == Some(n),
    decreases n,
{
    if n < 10 {
        assert(decimal(n).drop_last() =~= Seq::<char>::empty());
        assert(decimal_value(decimal(n).drop_last()) == 0);
    } else {
        decimal_reads_back(n / 10);
        assert(decimal(n).drop_last() =~= decimal(n / 10));
    }
    assert(is_digit(decimal(n)[0]));
}

/// Append `n` in decimal.
pub fn push_decimal(out: &mut String, n: u64)
    ensures
        final(out)@ == old(out)@ + decimal(n as nat),
    decreases n,
{
    if n >= 10 {
        push_decimal(out, n / 10);
    }
    let d: u8 = (n % 10) as u8;
    push_char(out, (48u8 + d) as char);
}

/// Append `n` in decimal, with its sign.
pub fn push_signed(out: &mut String, n: i64)
    requires
        n > i64::MIN,
    ensures
        final(out)@ == old(out)@ + signed_decimal(n as int),
{
    if n < 0 {
        push_char(out, '-');
        push_decimal(out, (-n) as u64);
    } else {
        push_decimal(out, n as u64);
    }
}

/// The ASCII lowercase of `c`; other characters stay as they are.
pub open spec fn ascii_lower(c: char) -> char {
    if 'A' <= c <= 'Z' {
        (c as int + 32) as char
    } else {
        c
    }
}

/// Equal but for the case of ASCII letters.
pub open spec fn eq_ignore_ascii_case(a: Seq<char>, b: Seq<char>) -> bool {
    a.len() == b.len() && forall|i: int|
        0 <= i < a.len() ==> ascii_lower(#[trigger] a[i]) == ascii_lower(b[i])
}

/// The ASCII lowercase of `c`.
pub fn lower(c: char) -> (r: char)
    ensures
        r == ascii_lower(c),
{
    if 'A' <= c && c <= 'Z' {
        ((c as u8) + 32) as char
    } else {
        c
    }
}

/// Whether two texts are equal but for the case of ASCII letters.
pub fn same_ignoring_ascii_case(a: &str, b: &str) -> (r: bool)
    ensures
        r == eq_ignore_ascii_case(a@, b@),
{
    let x = chars_of(a);
    let y = chars_of(b);
    if x.len() != y.len() {
        return false;
    }
    for i in 0..x.len()
        invariant
            x@ == a@,
            y@ == b@,
            x@.len() == y@.len(),
            forall|j: int| 0 <= j < i ==> ascii_lower(#[trigger] x@[j]) == ascii_lower(y@[j]),
    {
        if lower(x[i]) != lower(y[i]) {
            return false;
        }
    }
    true
}

/// `part` stands in `s` at position `at`.
pub open spec fn occurs_at(s: Seq<char>, part: Seq<char>, at: int) -> bool {
    0 <= at && at + part.len() <= s.len() && s.subrange(at, at + part.len()) == part
}

/// `part` stands somewhere in `s`.
pub open spec fn contains(s: Seq<char>, part: Seq<char>) -> bool {
    exists|at: int| occurs_at(s, part, at)
}

/// Whether `part` stands in `s` at `at`.
pub fn stands_at(s: &[char], part: &[char], at: usize) -> (r: bool)
    ensures
        r == occurs_at(s@, part@, at as int),
{
    let n: usize = s.len();
    if at > n || part.len() > n - at {
        return false;
    }
    for i in 0..part.len()
        invariant
            n == s@.len(),
            at + part@.len() <= s@.len(),
            forall|j: int| 0 <= j < i ==> s@[at + j] == part@[j],
    {
        if s[at + i] != part[i] {
            assert(s@.subrange(at as int, at + part@.len())[i as int] != part@[i as int]);
            return false;
        }
    }
    assert(s@.subrange(at as int, at + part@.len()) =~= part@);
    true
}

/// Whether `part` stands somewhere in `s`.
pub fn contains_chars(s: &[char], part: &[char]) -> (r: bool)
    ensures
        r == contains(s@, part@),
{
    let mut at: usize = 0;
    while at <= s.len() && part.len() <= s.len() - at
        invariant
            forall|j: int| 0 <= j < at ==> !occurs_at(s@, part@, j),
            at <= s@.len() + 1,
        decreases s@.len() + 1 - at,
    {
        if stands_at(s, part, at) {
            return true;
        }
        if at == s.len() {
            return false;
        }
        at = at + 1;
    }
    false
}

/// Whether `part` stands somewhere in `s`.
pub fn contains_str(s: &str, part: &str) -> (r: bool)
    ensures
        r == contains(s@, part@),
{
    let x = chars_of(s);
    let y = chars_of(part);
    contains_chars(x.as_slice(), y.as_slice())
}

/// What each of these strings spells.
pub open spec fn views(v: Seq<String>) -> Seq<Seq<char>> {
    v.map_values(|s: String| s@)
}

/// The parts one after the other, with `sep` between them.
pub open spec fn join(parts: Seq<Seq<char>>, sep: Seq<char>) -> Seq<char>
    decreases parts.len(),
{
    if parts.len() == 0 {
        Seq::empty()
    } else if parts.len() == 1 {
        parts[0]
    } else {
        join(parts.drop_last(), sep) + sep + parts.last()
    }
}

/// The strings one after the other, with `sep` between them.
pub fn join_strings(parts: &Vec<String>, sep: &str) -> (r: String)
    ensures
        r@ == join(views(parts@), sep@),
{
    let mut out = String::new();
    let mut i: usize = 0;
    while i < parts.len()
        invariant
            i <= parts@.len(),
            out@ == join(views(parts@).take(i as int), sep@),
        decreases parts@.len() - i,
    {
        let ghost done = views(parts@).take(i + 1);
        assert(done.drop_last() =~= views(parts@).take(i as int));
        if i > 0 {
            out.append(sep);
        } else {
            assert(out@ =~= Seq::<char>::empty());
        }
        out.append(parts[i].as_str());
        assert(out@ =~= join(done, sep@));
        i = i + 1;
    }
    assert(views(parts@).take(i as int) =~= views(parts@));
    out
}

/// The pieces of `s` between occurrences of `sep`.
pub open spec fn split(s: Seq<char>, sep: char) -> Seq<Seq<char>>
    decreases s.len(),
{
    match find_any(s, seq![sep]) {
        None => seq![s],
        Some(i) => if 0 <= i < s.len() {
            seq![s.take(i)] + split(s.skip(i + 1), sep)
        } else {
            seq![s]
        },
    }
}

/// What each of these runs of characters spells.
pub open spec fn char_views(v: Seq<Vec<char>>) -> Seq<Seq<char>> {
    v.map_values(|s: Vec<char>| s@)
}

/// The pieces of `s` between occurrences of `sep`.
pub fn split_chars(s: &[char], sep: char) -> (r: Vec<Vec<char>>)
    ensures
        char_views(r@) == split(s@, sep),
{
    let seps: [char; 1] = [sep];
    assert(seps@ =~= seq![sep]);
    let mut out: Vec<Vec<char>> = Vec::new();
    let n: usize = s.len();
    let mut from: usize = 0;
    assert(s@.skip(0) =~= s@);
    assert(char_views(out@) + split(s@, sep) =~= split(s@, sep));
    loop
        invariant_except_break
            n == s@.len(),
            from <= n,
            seps@ == seq![sep],
            char_views(out@) + split(s@.skip(from as int), sep) == split(s@, sep),
        ensures
            char_views(out@) == split(s@, sep),
        decreases n - from,
    {
        let rest = slice_chars(s, from, n);
        assert(rest@ =~= s@.skip(from as int));
        let ghost before = out@;
        match position_any(rest.as_slice(), &seps) {
            None => {
                out.push(rest);
                assert(char_views(out@) =~= char_views(before) + seq![rest@]);
                break;
            },
            Some(i) => {
                let piece = slice_chars(rest.as_slice(), 0, i);
                assert(piece@ =~= rest@.take(i as int));
                out.push(piece);
                assert(s@.skip(from + i + 1) =~= rest@.skip(i + 1));
                assert(char_views(out@) + split(s@.skip(from + i + 1), sep) =~= char_views(before)
                    + (seq![piece@] + split(rest@.skip(i + 1), sep)));
                from = from + i + 1;
            },
        }
    }
    out
}

/// Where the last `c` of `s` stands.
pub open spec fn find_last(s: Seq<char>, c: char) -> Option<int>
    decreases s.len(),
{
    if s.len() == 0 {
        None
    } else if s.last() == c {
        Some(s.len() - 1)
    } else {
        find_last(s.drop_last(), c)
    }
}

/// Where the last `c` of `s` stands.
pub fn position_last(s: &[char], c: char) -> (r: Option<usize>)
    ensures
        match r {
            Some(i) => find_last(s@, c) == Some(i as int) && i < s@.len(),
            None => find_last(s@, c) is None,
        },
{
    let mut n: usize = s.len();
    assert(s@.take(n as int) =~= s@);
    while n > 0
        invariant
            n <= s@.len(),
            find_last(s@, c) == find_last(s@.take(n as int), c),
        decreases n,
    {
        assert(s@.take(n as int).drop_last() =~= s@.take(n - 1));
        if s[n - 1] == c {
            return Some(n - 1);
        }
        n = n - 1;
    }
    None
}

/// What follows the last `c` of `s`: all of it where there is none.
pub open spec fn after_last(s: Seq<char>, c: char) -> Seq<char> {
    match find_last(s, c) {
        Some(i) => s.skip(i + 1),
        None => s,
    }
}

/// What follows the last `c` of `s`.
pub fn after_last_chars(s: &[char], c: char) -> (r: Vec<char>)
    ensures
        r@ == after_last(s@, c),
{
    let n: usize = s.len();
    match position_last(s, c) {
        Some(i) => {
            let r = slice_chars(s, i + 1, n);
            assert(r@ =~= s@.skip(i + 1));
            r
        },
        None => {
            let r = slice_chars(s, 0, n);
            assert(r@ =~= s@);
            r
        },
    }
}

/// A text's length in bytes, in UTF-8.
pub open spec fn byte_len(s: Seq<char>) -> usize {
    vstd::utf8::encode_utf8(s).len() as usize
}

/// A text's length in bytes, in UTF-8.
pub fn utf8_len(s: &[char]) -> (r: usize)
    ensures
        r == byte_len(s@),
{
    let t = string_of(s);
    t.as_str().len()
}

/// A text's characters, without the white space at its end.
pub fn trim_end_chars(s: &[char]) -> (r: Vec<char>)
    ensures
        r@ == trim_end(s@),
{
    let mut n: usize = s.len();
    assert(s@.take(n as int) =~= s@);
    while n > 0 && char_is_space(s[n - 1])
        invariant
            n <= s@.len(),
            trim_end(s@) == trim_end(s@.take(n as int)),
        decreases n,
    {
        assert(s@.take(n as int).drop_last() =~= s@.take(n - 1));
        n = n - 1;
    }
    let r = slice_chars(s, 0, n);
    assert(r@ =~= s@.take(n as int));
    r
}

/// A text's characters, in lowercase.
pub fn lowercase_chars(s: &[char]) -> (r: Vec<char>)
    ensures
        r@ == lowercase(s@),
{
    let t = string_of(s);
    let low = to_lowercase(t.as_str());
    chars_of(low.as_str())
}

/// Whether the characters spell `t`.
pub fn spells(s: &[char], t: &str) -> (r: bool)
    ensures
        r == (s@ == t@),
{
    let u = chars_of(t);
    same_chars(s, u.as_slice())
}

/// A line as `str::lines` gives one that a line feed ended: without the carriage return
/// before it.
pub open spec fn without_return(s: Seq<char>) -> Seq<char> {
    if s.len() > 0 && s.last() == '\r' {
        s.drop_last()
    } else {
        s
    }
}

/// The lines of `s`: each ends at a line feed, or at a carriage return and a line feed; what
/// follows the last line feed is a line too, if there is any.
pub open spec fn lines(s: Seq<char>) -> Seq<Seq<char>> {
    let parts = split(s, '\n');
    let ended = parts.drop_last().map_values(|p: Seq<char>| without_return(p));
    if parts.last().len() == 0 {
        ended
    } else {
        ended.push(parts.last())
    }
}

/// There is always a last piece.
pub proof fn split_is_not_empty(s: Seq<char>, sep: char)
    ensures
        split(s, sep).len() > 0,
{
}

/// The lines of a text.
pub fn lines_of(s: &[char]) -> (r: Vec<Vec<char>>)
    ensures
        char_views(r@) == lines(s@),
{
    let parts = split_chars(s, '\n');
    let ghost p = split(s@, '\n');
    proof {
        split_is_not_empty(s@, '\n');
        assert(char_views(parts@).len() == parts@.len());
    }
    let n: usize = parts.len();
    let mut out: Vec<Vec<char>> = Vec::new();
    let ghost ended = p.drop_last().map_values(|x: Seq<char>| without_return(x));
    for i in 0..n - 1
        invariant
            n == parts@.len(),
            n > 0,
            char_views(parts@) == p,
            ended == p.drop_last().map_values(|x: Seq<char>| without_return(x)),
            char_views(out@) == ended.take(i as int),
    {
        assert(char_views(parts@)[i as int] == parts@[i as int]@);
        let line = parts[i].as_slice();
        let k: usize = line.len();
        let ghost before = out@;
        let end: usize = if k > 0 && line[k - 1] == '\r' {
            k - 1
        } else {
            k
        };
        let kept = slice_chars(line, 0, end);
        assert(kept@ =~= without_return(p[i as int]));
        out.push(kept);
        assert(char_views(out@) =~= char_views(before).push(kept@));
        assert(ended.take(i + 1) =~= ended.take(i as int).push(ended[i as int]));
    }
    assert(ended.take(n - 1) =~= ended);
    assert(char_views(parts@)[n - 1] == parts@[n - 1]@);
    if parts[n - 1].len() > 0 {
        let ghost before = out@;
        let last = slice_chars(parts[n - 1].as_slice(), 0, parts[n - 1].len());
        assert(last@ =~= p.last());
        out.push(last);
        assert(char_views(out@) =~= char_views(before).push(last@));
    }
    out
}

/// `s` with its ASCII letters in lower case.
pub open spec fn lowered(s: Seq<char>) -> Seq<char> {
    Seq::new(s.len(), |i: int| ascii_lower(s[i]))
}

/// A text with its ASCII letters in lower case.
pub fn lowered_chars(s: &[char]) -> (r: Vec<char>)
    ensures
        r@ == lowered(s@),
{
    let mut out: Vec<char> = Vec::new();
    for i in 0..s.len()
        invariant
            out@ == lowered(s@).take(i as int),
    {
        out.push(lower(s[i]));
        assert(lowered(s@).take(i + 1) =~= lowered(s@).take(i as int).push(ascii_lower(s@[i as int])));
    }
    assert(lowered(s@).take(s@.len() as int) =~= lowered(s@));
    out
}

/// The hexadecimal digit for `d`, from 0 to 15.
pub open spec fn hex_char(d: nat, upper: bool) -> char {
    if d < 10 {
        digit_char(d)
    } else if upper {
        (('A' as u32 + (d - 10)) as u32) as char
    } else {
        (('a' as u32 + (d - 10)) as u32) as char
    }
}

/// The last `width` hexadecimal digits of `n`.
pub open spec fn hex(n: nat, width: nat, upper: bool) -> Seq<char>
    decreases width,
{
    if width == 0 {
        Seq::empty()
    } else {
        hex(n / 16, (width - 1) as nat, upper).push(hex_char(n % 16, upper))
    }
}

fn hex_digit(d: u64, upper: bool) -> (r: char)
    requires
        d < 16,
    ensures
        r == hex_char(d as nat, upper),
{
    if d < 10 {
        (48 + d as u8) as char
    } else if upper {
        (65 + (d as u8 - 10)) as char
    } else {
        (97 + (d as u8 - 10)) as char
    }
}

/// Append the last `width` hexadecimal digits of `n`.
pub fn push_hex(out: &mut String, n: u64, width: usize, upper: bool)
    ensures
        final(out)@ == old(out)@ + hex(n as nat, width as nat, upper),
    decreases width,
{
    if width > 0 {
        push_hex(out, n / 16, width - 1, upper);
        push_char(out, hex_digit(n % 16, upper));
    }
    assert(out@ =~= old(out)@ + hex(n as nat, width as nat, upper));
}

/// The pieces of a joined text are the parts it was joined from, if none of them holds the
/// separator.
pub proof fn split_undoes_join(parts: Seq<Seq<char>>, sep: char)
    requires
        parts.len() > 0,
        forall|i: int| 0 <= i < parts.len() ==> !(#[trigger] parts[i]).contains(sep),
    ensures
        split(join(parts, seq![sep]), sep) == parts,
    decreases parts.len(),
{
    let whole = join(parts, seq![sep]);
    if parts.len() == 1 {
        assert(!parts[0].contains(sep));
        find_any_is_first(whole, seq![sep]);
        assert(find_any(whole, seq![sep]) is None);
        assert(parts =~= seq![parts[0]]);
    } else {
        let rest = parts.drop_last();
        split_undoes_join(rest, sep);
        let tail = parts.last();
        assert(!parts[parts.len() - 1].contains(sep));
        split_at_the_end(join(rest, seq![sep]), tail, sep);
        assert(whole == join(rest, seq![sep]) + seq![sep] + tail);
        assert(rest.push(tail) =~= parts);
    }
}

/// A piece more at the end of a text is a piece more.
proof fn split_at_the_end(s: Seq<char>, tail: Seq<char>, sep: char)
    requires
        !tail.contains(sep),
    ensures
        split(s + seq![sep] + tail, sep) == split(s, sep).push(tail),
    decreases s.len(),
{
    let whole = s + seq![sep] + tail;
    let seps = seq![sep];
    find_any_is_first(s, seps);
    find_any_is_first(whole, seps);
    match find_any(s, seps) {
        None => {
            assert forall|j: int| 0 <= j < s.len() implies !seps.contains(#[trigger] whole[j]) by {
                assert(whole[j] == s[j]);
            }
            assert(seps.contains(whole[s.len() as int])) by {
                assert(seps[0] == sep);
            }
            find_any_unique(whole, seps, s.len() as int);
            assert(whole.take(s.len() as int) =~= s);
            assert(whole.skip(s.len() as int + 1) =~= tail);
            find_any_is_first(tail, seps);
            assert(find_any(tail, seps) is None) by {
                if let Some(i) = find_any(tail, seps) {
                    assert(seps.contains(tail[i]));
                    assert(tail[i] == sep);
                }
            }
            assert(split(tail, sep) == seq![tail]);
            assert(split(s, sep) == seq![s]);
            assert(split(whole, sep) == seq![s] + split(tail, sep));
            assert(seq![s] + seq![tail] =~= seq![s].push(tail));
        },
        Some(i) => {
            assert forall|j: int| 0 <= j < i implies !seps.contains(#[trigger] whole[j]) by {
                assert(whole[j] == s[j]);
            }
            assert(whole[i] == s[i]);
            find_any_unique(whole, seps, i);
            assert(whole.take(i) =~= s.take(i));
            assert(whole.skip(i + 1) =~= s.skip(i + 1) + seq![sep] + tail);
            split_at_the_end(s.skip(i + 1), tail, sep);
            assert(split(whole, sep) == seq![whole.take(i)] + split(whole.skip(i + 1), sep));
            assert(seq![s.take(i)] + split(s.skip(i + 1), sep).push(tail) =~= (seq![s.take(i)]
                + split(s.skip(i + 1), sep)).push(tail));
        },
    }
}

/// A string that may be missing, as a text.
pub open spec fn owned(s: Option<String>) -> Option<Seq<char>> {
    match s {
        Some(t) => Some(t@),
        None => None,
    }
}

/// What holds a text holds the texts in it.
pub proof fn contains_is_transitive(a: Seq<char>, b: Seq<char>, c: Seq<char>)
    requires
        contains(a, b),
        contains(b, c),
    ensures
        contains(a, c),
{
    let i = choose|i: int| occurs_at(a, b, i);
    let j = choose|j: int| occurs_at(b, c, j);
    assert(a.subrange(i + j, i + j + c.len()) =~= c) by {
        assert forall|k: int| 0 <= k < c.len() implies a[i + j + k] == c[k] by {
            assert(a.subrange(i, i + b.len())[j + k] == b[j + k]);
            assert(b.subrange(j, j + c.len())[k] == c[k]);
        }
    }
    assert(occurs_at(a, c, i + j));
}

/// A text is found in any text it is a part of, with whatever around it, and a text of which a
/// character is nowhere in another is not in that one.
pub proof fn a_text_is_in_what_it_is_part_of(before: Seq<char>, part: Seq<char>, after: Seq<char>)
    ensures
        contains(before + part + after, part),
        forall|s: Seq<char>, i: int|
            0 <= i < part.len() && !s.contains(#[trigger] part[i]) ==> !(#[trigger] contains(
                s,
                part,
            )),
{
    let s = before + part + after;
    assert(s.subrange(before.len() as int, (before.len() + part.len()) as int) =~= part);
    assert(occurs_at(s, part, before.len() as int));
    assert forall|s: Seq<char>, i: int|
        0 <= i < part.len() && !s.contains(#[trigger] part[i]) implies !(#[trigger] contains(
        s,
        part,
    )) by {
        if contains(s, part) {
            let at = choose|at: int| occurs_at(s, part, at);
            assert(s.subrange(at, at + part.len())[i] == s[at + i]);
        }
    }
}

/// A capital letter's small one is the letter of the same place in the alphabet, and nothing
/// else has another.
pub proof fn capitals_become_small(c: char, r: char)
    requires
        call_ensures(lower, (c,), r),
    ensures
        'A' <= c <= 'Z' ==> 'a' <= r <= 'z' && r as int - 'a' as int == c as int - 'A' as int,
        !('A' <= c <= 'Z') ==> r == c,
{
}

/// Trimming takes the white space off both ends and nothing else.
pub proof fn trimming_takes_white_space_off_the_ends(a: Seq<char>, m: Seq<char>, b: Seq<char>)
    requires
        forall|i: int| 0 <= i < a.len() ==> is_space(#[trigger] a[i]),
        forall|i: int| 0 <= i < b.len() ==> is_space(#[trigger] b[i]),
        m.len() > 0,
        !is_space(m[0]),
        !is_space(m.last()),
    ensures
        trim(a + m + b) == m,
        trim_start(a + m) == m,
        trim_end(m + b) == m,
{
    off_the_start(a, m + b);
    assert(a + m + b =~= a + (m + b));
    off_the_start(a, m);
    off_the_end(m, b);
}

proof fn off_the_start(a: Seq<char>, s: Seq<char>)
    requires
        forall|i: int| 0 <= i < a.len() ==> is_space(#[trigger] a[i]),
        s.len() > 0,
        !is_space(s[0]),
    ensures
        trim_start(a + s) == s,
    decreases a.len(),
{
    if a.len() > 0 {
        off_the_start(a.drop_first(), s);
        assert((a + s)[0] == a[0]);
        assert((a + s).drop_first() =~= a.drop_first() + s);
    } else {
        assert(a + s =~= s);
    }
}

proof fn off_the_end(s: Seq<char>, b: Seq<char>)
    requires
        forall|i: int| 0 <= i < b.len() ==> is_space(#[trigger] b[i]),
        s.len() > 0,
        !is_space(s.last()),
    ensures
        trim_end(s + b) == s,
    decreases b.len(),
{
    if b.len() > 0 {
        off_the_end(s, b.drop_last());
        assert((s + b).last() == b.last());
        assert((s + b).drop_last() =~= s + b.drop_last());
    } else {
        assert(s + b =~= s);
    }
}

/// Blanks, tabs and the ends of lines are white space; what shows in ASCII is not, nor is it a
/// control character.
pub proof fn what_shows_is_no_white_space(c: char, space: bool, control: bool)
    requires
        call_ensures(char_is_space, (c,), space),
        call_ensures(char_is_control, (c,), control),
    ensures
        '!' <= c <= '~' ==> !space && !control,
        c == ' ' || c == '\t' || c == '\n' || c == '\r' ==> space,
        c < ' ' ==> control,
        c == ' ' ==> !control,
{
}

/// What stands after the last of a character holds it no more.
pub proof fn after_the_last_there_is_no_other(a: Seq<char>, c: char, b: Seq<char>)
    requires
        !b.contains(c),
    ensures
        after_last(a + seq![c] + b, c) == b,
        after_last(b, c) == b,
{
    let s = a + seq![c] + b;
    last_is_at(a, c, b);
    assert(s.skip((a.len() + 1) as int) =~= b);
    none_within(b, c);
}

proof fn last_is_at(a: Seq<char>, c: char, b: Seq<char>)
    requires
        !b.contains(c),
    ensures
        find_last(a + seq![c] + b, c) == Some(a.len() as int),
    decreases b.len(),
{
    let s = a + seq![c] + b;
    if b.len() > 0 {
        assert(b[b.len() - 1] != c);
        assert forall|i: int| 0 <= i < b.len() - 1 implies b.drop_last()[i] != c by {
            assert(b[i] != c);
        }
        last_is_at(a, c, b.drop_last());
        assert(s.drop_last() =~= a + seq![c] + b.drop_last());
    } else {
        assert(s.last() == c);
    }
}

proof fn none_within(b: Seq<char>, c: char)
    requires
        !b.contains(c),
    ensures
        find_last(b, c) is None,
    decreases b.len(),
{
    if b.len() > 0 {
        assert(b[b.len() - 1] != c);
        assert forall|i: int| 0 <= i < b.len() - 1 implies b.drop_last()[i] != c by {
            assert(b[i] != c);
        }
        none_within(b.drop_last(), c);
    }
}

/// A number in base sixteen has as many digits as it was given, the last of which is its rest by
/// sixteen.
pub proof fn hexadecimal_goes_by_sixteens(n: nat, width: nat, upper: bool)
    requires
        width > 0,
    ensures
        hex(n, width, upper).len() == width,
        hex(n, width, upper).last() == hex_char(n % 16, upper),
        hex(n, width, upper).drop_last() == hex(n / 16, (width - 1) as nat, upper),
    decreases width,
{
    if width > 1 {
        hexadecimal_goes_by_sixteens(n / 16, (width - 1) as nat, upper);
    }
    let rest = hex(n / 16, (width - 1) as nat, upper);
    assert(rest.push(hex_char(n % 16, upper)).drop_last() =~= rest);
}

/// A sign tells a number from its opposite, and the plus may be left out.
pub proof fn a_sign_turns_a_number_round(
    digits: Seq<char>,
    plain: Option<i32>,
    minus: Option<i32>,
    plus: Option<i32>,
)
    requires
        all_digits(digits),
        decimal_value(digits) <= i32::MAX,
        plain == parse_i32_spec(digits),
        minus == parse_i32_spec(seq!['-'] + digits),
        plus == parse_i32_spec(seq!['+'] + digits),
    ensures
        plain matches Some(n) && minus == Some((-n) as i32) && plus == Some(n) && n >= 0,
{
    assert(is_digit(digits[0]));
    assert((seq!['-'] + digits).skip(1) =~= digits);
    assert((seq!['+'] + digits).skip(1) =~= digits);
}

} // verus!
