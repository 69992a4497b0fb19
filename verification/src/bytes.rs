//! Words in the byte arrays the Wayland protocols carry, in the machine's own byte order.

use vstd::prelude::*;

verus! {

/// Which end of a word comes first in memory.
#[derive(Clone, Copy, Debug, PartialEq, Eq, Structural)]
pub enum ByteOrder {
    Little,
    Big,
}

/// `u32::to_ne_bytes`, of one. The documentation says the bytes come in the target's
/// own order, so they are one of these two arrays; which one is the machine's.
#[verifier::external_body]
fn one_in_memory() -> (r: [u8; 4])
    ensures
        r@ == seq![1u8, 0, 0, 0] || r@ == seq![0u8, 0, 0, 1],
{
    1u32.to_ne_bytes()
}

/// The byte order in which `bytes` stand for one: the little end first where the one comes
/// first and zeros follow.
pub fn order_of(bytes: [u8; 4]) -> (r: ByteOrder)
    ensures
        (r == ByteOrder::Little) == (bytes@ == seq![1u8, 0, 0, 0]),
{
    if bytes[0] == 1 && bytes[1] == 0 && bytes[2] == 0 && bytes[3] == 0 {
        assert(bytes@ =~= seq![1u8, 0, 0, 0]);
        ByteOrder::Little
    } else {
        assert(bytes@ != seq![1u8, 0, 0, 0]) by {
            if bytes@ == seq![1u8, 0, 0, 0] {
                assert(bytes@[0] == 1 && bytes@[1] == 0 && bytes@[2] == 0 && bytes@[3] == 0);
            }
        }
        ByteOrder::Big
    }
}

/// The byte order of the machine this runs on: the one in which it stores one
/// ([`order_of`]). Which of the two it is depends on the machine alone.
pub fn host_order() -> (r: ByteOrder)
    ensures
        r == ByteOrder::Little || r == ByteOrder::Big,
{
    order_of(one_in_memory())
}

/// The number `bytes` stand for in `order`.
pub open spec fn number(bytes: Seq<u8>, order: ByteOrder) -> nat
    decreases bytes.len(),
{
    if bytes.len() == 0 {
        0
    } else {
        match order {
            ByteOrder::Little => bytes[0] as nat + 256 * number(bytes.drop_first(), order),
            ByteOrder::Big => bytes.last() as nat + 256 * number(bytes.drop_last(), order),
        }
    }
}

/// The words of `size` bytes each that `bytes` holds; a truncated last one is left out.
pub open spec fn words(bytes: Seq<u8>, size: int, order: ByteOrder) -> Seq<nat> {
    Seq::new(
        (bytes.len() / size as nat) as nat,
        |i: int| number(bytes.subrange(i * size, (i + 1) * size), order),
    )
}

/// The four bytes at `at`, as a number.
fn word32(b: &[u8], at: usize, order: ByteOrder) -> (r: u32)
    requires
        at + 4 <= b@.len(),
    ensures
        r == number(b@.subrange(at as int, at + 4), order),
{
    let ghost s = b@.subrange(at as int, at + 4);
    let n: usize = b.len();
    let (b0, b1, b2, b3): (u8, u8, u8, u8) = (b[at], b[at + 1], b[at + 2], b[at + 3]);
    proof {
        reveal_with_fuel(number, 5);
        assert(s[0] == b0 && s[1] == b1 && s[2] == b2 && s[3] == b3);
        assert(s.drop_first().drop_first().drop_first().drop_first().len() == 0);
        assert(s.drop_last().drop_last().drop_last().drop_last().len() == 0);
    }
    match order {
        ByteOrder::Little => b0 as u32 + 256 * (b1 as u32 + 256 * (b2 as u32 + 256 * b3 as u32)),
        ByteOrder::Big => b3 as u32 + 256 * (b2 as u32 + 256 * (b1 as u32 + 256 * b0 as u32)),
    }
}

/// The eight bytes at `at`, as a number.
fn word64(b: &[u8], at: usize, order: ByteOrder) -> (r: u64)
    requires
        at + 8 <= b@.len(),
    ensures
        r == number(b@.subrange(at as int, at + 8), order),
{
    let n: usize = b.len();
    let lo: u32 = word32(b, at, order);
    let hi: u32 = word32(b, at + 4, order);
    proof {
        number_splits(b@.subrange(at as int, at + 8), 4, order);
        assert(b@.subrange(at as int, at + 8).take(4) =~= b@.subrange(at as int, at + 4));
        assert(b@.subrange(at as int, at + 8).skip(4) =~= b@.subrange(at + 4, at + 4 + 4));
        assert(pow256(4) == 0x1_0000_0000) by {
            reveal_with_fuel(pow256, 5);
        }
    }
    match order {
        ByteOrder::Little => lo as u64 + 0x1_0000_0000 * hi as u64,
        ByteOrder::Big => hi as u64 + 0x1_0000_0000 * lo as u64,
    }
}

/// A power of 256.
pub open spec fn pow256(n: nat) -> nat
    decreases n,
{
    if n == 0 {
        1
    } else {
        256 * pow256((n - 1) as nat)
    }
}

/// A number's two halves, each read on its own.
proof fn number_splits(s: Seq<u8>, k: int, order: ByteOrder)
    requires
        0 <= k <= s.len(),
    ensures
        order == ByteOrder::Little ==> number(s, order) == number(s.take(k), order) + pow256(
            k as nat,
        ) * number(s.skip(k), order),
        order == ByteOrder::Big ==> number(s, order) == number(s.skip(k), order) + pow256(
            (s.len() - k) as nat,
        ) * number(s.take(k), order),
    decreases s.len(),
{
    match order {
        ByteOrder::Little => {
            if k == 0 {
                assert(s.skip(0) =~= s);
                assert(number(s.take(0), order) == 0);
                let one = pow256(0);
                let n = number(s, order);
                assert(one * n == n) by (nonlinear_arith)
                    requires
                        one == 1,
                ;
            } else {
                number_splits(s.drop_first(), k - 1, order);
                assert(s.take(k).drop_first() =~= s.drop_first().take(k - 1));
                assert(s.skip(k) =~= s.drop_first().skip(k - 1));
                let p = pow256((k - 1) as nat);
                let q = pow256(k as nat);
                let n = number(s.skip(k), order);
                assert(q * n == 256 * (p * n)) by (nonlinear_arith)
                    requires
                        q == 256 * p,
                ;
            }
        },
        ByteOrder::Big => {
            if k == s.len() {
                assert(s.take(k) =~= s);
                assert(number(s.skip(k), order) == 0);
                let one = pow256(0);
                let n = number(s, order);
                assert(one * n == n) by (nonlinear_arith)
                    requires
                        one == 1,
                ;
            } else {
                number_splits(s.drop_last(), k, order);
                assert(s.skip(k).drop_last() =~= s.drop_last().skip(k));
                assert(s.take(k) =~= s.drop_last().take(k));
                let p = pow256((s.len() - 1 - k) as nat);
                let q = pow256((s.len() - k) as nat);
                let n = number(s.take(k), order);
                assert(q * n == 256 * (p * n)) by (nonlinear_arith)
                    requires
                        q == 256 * p,
                ;
            }
        },
    }
}

/// The 32-bit words of a byte array; a truncated last one is left out.
pub fn words32(bytes: &[u8], order: ByteOrder) -> (r: Vec<u32>)
    ensures
        r@.len() == words(bytes@, 4, order).len(),
        forall|i: int| 0 <= i < r@.len() ==> #[trigger] r@[i] == words(bytes@, 4, order)[i],
{
    let n: usize = bytes.len() / 4;
    let mut out: Vec<u32> = Vec::new();
    for i in 0..n
        invariant
            n == bytes@.len() / 4,
            out@.len() == i,
            forall|j: int| 0 <= j < i ==> #[trigger] out@[j] == words(bytes@, 4, order)[j],
    {
        let m: usize = bytes.len();
        out.push(word32(bytes, i * 4, order));
    }
    out
}

/// The 64-bit words of a byte array; a truncated last one is left out.
pub fn words64(bytes: &[u8], order: ByteOrder) -> (r: Vec<u64>)
    ensures
        r@.len() == words(bytes@, 8, order).len(),
        forall|i: int| 0 <= i < r@.len() ==> #[trigger] r@[i] == words(bytes@, 8, order)[i],
{
    let n: usize = bytes.len() / 8;
    let mut out: Vec<u64> = Vec::new();
    for i in 0..n
        invariant
            n == bytes@.len() / 8,
            out@.len() == i,
            forall|j: int| 0 <= j < i ==> #[trigger] out@[j] == words(bytes@, 8, order)[j],
    {
        let m: usize = bytes.len();
        out.push(word64(bytes, i * 8, order));
    }
    out
}

/// Whether a byte array of 32-bit words holds `value`.
pub fn holds_word(bytes: &[u8], value: u32, order: ByteOrder) -> (r: bool)
    ensures
        r == words(bytes@, 4, order).contains(value as nat),
{
    let w = words32(bytes, order);
    for i in 0..w.len()
        invariant
            w@.len() == words(bytes@, 4, order).len(),
            forall|j: int| 0 <= j < w@.len() ==> #[trigger] w@[j] == words(bytes@, 4, order)[j],
            forall|j: int| 0 <= j < i ==> w@[j] != value,
    {
        if w[i] == value {
            assert(words(bytes@, 4, order)[i as int] == value as nat);
            return true;
        }
    }
    assert forall|j: int| 0 <= j < words(bytes@, 4, order).len() implies words(bytes@, 4, order)[j]
        != value as nat by {
        assert(w@[j] == words(bytes@, 4, order)[j]);
    }
    false
}

/// A device number, where the array is one.
pub fn device_number(bytes: &[u8], order: ByteOrder) -> (r: Option<u64>)
    ensures
        r is Some <==> bytes@.len() == 8,
        r matches Some(d) ==> d == number(bytes@, order),
{
    if bytes.len() != 8 {
        return None;
    }
    assert(bytes@.subrange(0, 8) =~= bytes@);
    Some(word64(bytes, 0, order))
}

/// A word is made of its bytes by their places: the first is worth least in the one order and
/// most in the other.
pub proof fn bytes_count_by_their_place(bytes: &[u8], little: Vec<u32>, big: Vec<u32>, i: int)
    requires
        call_ensures(words32, (bytes, ByteOrder::Little), little),
        call_ensures(words32, (bytes, ByteOrder::Big), big),
        0 <= i,
        4 * i + 4 <= bytes@.len(),
    ensures
        i < little@.len(),
        i < big@.len(),
        little@[i] == bytes@[4 * i] + 0x100 * bytes@[4 * i + 1] + 0x1_0000 * bytes@[4 * i + 2]
            + 0x100_0000 * bytes@[4 * i + 3],
        big@[i] == bytes@[4 * i + 3] + 0x100 * bytes@[4 * i + 2] + 0x1_0000 * bytes@[4 * i + 1]
            + 0x100_0000 * bytes@[4 * i],
{
    let b = bytes@.subrange(i * 4, (i + 1) * 4);
    four_bytes(b);
    assert(little@[i] == words(bytes@, 4, ByteOrder::Little)[i]);
    assert(big@[i] == words(bytes@, 4, ByteOrder::Big)[i]);
}

proof fn four_bytes(b: Seq<u8>)
    requires
        b.len() == 4,
    ensures
        number(b, ByteOrder::Little) == b[0] + 0x100 * b[1] + 0x1_0000 * b[2] + 0x100_0000 * b[3],
        number(b, ByteOrder::Big) == b[3] + 0x100 * b[2] + 0x1_0000 * b[1] + 0x100_0000 * b[0],
{
    reveal_with_fuel(number, 5);
}

/// The same bytes turned round are the same number in the other order.
pub proof fn turned_round_is_the_other_order(b: Seq<u8>)
    ensures
        number(b, ByteOrder::Little) == number(b.reverse(), ByteOrder::Big),
    decreases b.len(),
{
    if b.len() > 0 {
        turned_round_is_the_other_order(b.drop_first());
        assert(b.reverse().drop_last() =~= b.drop_first().reverse());
    }
}

/// A word is found wherever it stands, at a multiple of its size.
pub proof fn a_word_is_found_where_it_stands(
    bytes: &[u8],
    order: ByteOrder,
    v: Vec<u32>,
    value: u32,
    r: bool,
)
    requires
        call_ensures(words32, (bytes, order), v),
        call_ensures(holds_word, (bytes, value, order), r),
    ensures
        r <==> v@.contains(value),
{
    let w = words(bytes@, 4, order);
    if w.contains(value as nat) {
        let i = choose|i: int| 0 <= i < w.len() && w[i] == value as nat;
        assert(v@[i] == value);
    }
    if v@.contains(value) {
        let i = choose|i: int| 0 <= i < v@.len() && v@[i] == value;
        assert(w[i] == value as nat);
    }
}

/// The four bytes stand in `bytes` as its `i`-th word.
pub open spec fn stands(bytes: Seq<u8>, i: int, a: u8, b: u8, c: u8, d: u8) -> bool {
    0 <= i && 4 * i + 4 <= bytes.len() && bytes[4 * i] == a && bytes[4 * i + 1] == b && bytes[4 * i
        + 2] == c && bytes[4 * i + 3] == d
}

/// A word that one byte can hold is that byte and three of nought, which stand after it in the
/// one order and before it in the other.
pub proof fn small_words_are_mostly_nought(bytes: Seq<u8>, v: u8)
    ensures
        words(bytes, 4, ByteOrder::Little).contains(v as nat) <==> exists|i: int| #[trigger]
            stands(bytes, i, v, 0, 0, 0),
        words(bytes, 4, ByteOrder::Big).contains(v as nat) <==> exists|i: int| #[trigger]
            stands(bytes, i, 0, 0, 0, v),
{
    let (l, b) = (words(bytes, 4, ByteOrder::Little), words(bytes, 4, ByteOrder::Big));
    assert(l.len() == bytes.len() / 4 && b.len() == bytes.len() / 4);
    if l.contains(v as nat) {
        let i = choose|i: int| 0 <= i < l.len() && l[i] == v as nat;
        word_at(bytes, i, v);
    }
    if b.contains(v as nat) {
        let i = choose|i: int| 0 <= i < b.len() && b[i] == v as nat;
        word_at(bytes, i, v);
    }
    if exists|i: int| #[trigger] stands(bytes, i, v, 0, 0, 0) {
        let i = choose|i: int| #[trigger] stands(bytes, i, v, 0, 0, 0);
        word_at(bytes, i, v);
    }
    if exists|i: int| #[trigger] stands(bytes, i, 0, 0, 0, v) {
        let i = choose|i: int| #[trigger] stands(bytes, i, 0, 0, 0, v);
        word_at(bytes, i, v);
    }
}

proof fn word_at(bytes: Seq<u8>, i: int, v: u8)
    requires
        0 <= i,
        4 * i + 4 <= bytes.len(),
    ensures
        i < words(bytes, 4, ByteOrder::Little).len(),
        i < words(bytes, 4, ByteOrder::Big).len(),
        words(bytes, 4, ByteOrder::Little)[i] == v as nat <==> stands(bytes, i, v, 0, 0, 0),
        words(bytes, 4, ByteOrder::Big)[i] == v as nat <==> stands(bytes, i, 0, 0, 0, v),
{
    let b = bytes.subrange(i * 4, (i + 1) * 4);
    assert(b.len() == 4);
    assert(b[0] == bytes[4 * i] && b[1] == bytes[4 * i + 1] && b[2] == bytes[4 * i + 2] && b[3]
        == bytes[4 * i + 3]);
    four_bytes(b);
}

} // verus!
