//! Stable sorting, and the orders the library sorts by.

use crate::text::chars_of;
use vstd::prelude::*;

verus! {

/// Something with a place in an order. Keys that neither come before the other are level.
pub trait SortKey: Sized {
    /// Whether this key comes before `other`.
    spec fn before(&self, other: &Self) -> bool;

    /// `before` is an order: nothing comes before itself, and both it and its opposite
    /// are transitive.
    proof fn is_an_order(a: Self, b: Self, c: Self)
        ensures
            !a.before(&a),
            a.before(&b) && b.before(&c) ==> a.before(&c),
            !a.before(&b) && !b.before(&c) ==> !a.before(&c),
    ;

    /// Whether this key comes before `other`.
    fn comes_before(&self, other: &Self) -> (r: bool)
        ensures
            r == self.before(other),
    ;
}

/// The item at `i` goes before the one at `j`: its key is smaller, or level and it came
/// first.
pub open spec fn goes_before<K: SortKey>(keys: Seq<K>, i: int, j: int) -> bool {
    keys[i].before(&keys[j]) || (!keys[j].before(&keys[i]) && i < j)
}

/// `r` lists the first `n` positions of `keys` in sorted order.
pub open spec fn sorted_prefix<K: SortKey>(keys: Seq<K>, r: Seq<usize>, n: int) -> bool {
    &&& r.len() == n
    &&& forall|k: int| 0 <= k < r.len() ==> 0 <= #[trigger] r[k] < n
    &&& forall|v: usize| 0 <= v < n ==> #[trigger] r.contains(v)
    &&& forall|a: int, b: int|
        0 <= a < b < r.len() ==> goes_before(keys, #[trigger] r[a] as int, #[trigger] r[b] as int)
}

/// `r` lists every position of `keys` once, in sorted order; level ones keep their order.
pub open spec fn sorts<K: SortKey>(keys: Seq<K>, r: Seq<usize>) -> bool {
    sorted_prefix(keys, r, keys.len() as int)
}

/// The positions of the keys in sorted order; level keys keep the order they came in.
pub fn sort_positions<K: SortKey>(keys: &Vec<K>) -> (r: Vec<usize>)
    ensures
        sorts(keys@, r@),
{
    let mut out: Vec<usize> = Vec::new();
    for n in 0..keys.len()
        invariant
            sorted_prefix(keys@, out@, n as int),
    {
        let mut p: usize = out.len();
        while p > 0 && keys[n].comes_before(&keys[out[p - 1]])
            invariant
                n < keys@.len(),
                p <= out@.len(),
                sorted_prefix(keys@, out@, n as int),
                forall|k: int|
                    p <= k < out@.len() ==> keys@[n as int].before(
                        &keys@[#[trigger] out@[k] as int],
                    ),
            decreases p,
        {
            p = p - 1;
        }
        let ghost before = out@;
        out.insert(p, n);
        proof {
            assert(out@ == before.insert(p as int, n));
            assert forall|v: usize| 0 <= v < n + 1 implies #[trigger] out@.contains(v) by {
                if v == n {
                    assert(out@[p as int] == v);
                } else {
                    assert(before.contains(v));
                    let k = choose|k: int| 0 <= k < before.len() && before[k] == v;
                    if k < p {
                        assert(out@[k] == v);
                    } else {
                        assert(out@[k + 1] == v);
                    }
                }
            }
            assert forall|a: int, b: int| 0 <= a < b < out@.len() implies goes_before(
                keys@,
                #[trigger] out@[a] as int,
                #[trigger] out@[b] as int,
            ) by {
                let x = if a < p {
                    a
                } else {
                    a - 1
                };
                let y = if b < p {
                    b
                } else {
                    b - 1
                };
                if a == p {
                    assert(before[y] == out@[b]);
                } else if b == p {
                    // Everything before the insertion point is not after the new key.
                    assert(before[a] == out@[a]);
                    let last = before[p - 1] as int;
                    assert(!keys@[n as int].before(&keys@[last]));
                    if a < p - 1 {
                        assert(goes_before(keys@, before[a] as int, before[p - 1] as int));
                        K::is_an_order(keys@[n as int], keys@[last], keys@[before[a] as int]);
                        K::is_an_order(keys@[before[a] as int], keys@[last], keys@[n as int]);
                        K::is_an_order(keys@[last], keys@[before[a] as int], keys@[last]);
                    }
                    assert(!keys@[n as int].before(&keys@[before[a] as int]));
                } else {
                    assert(before[x] == out@[a]);
                    assert(before[y] == out@[b]);
                }
            }
        }
    }
    out
}

/// Sorted order is one: two sorted lists of the same keys are the same list.
pub proof fn sorting_is_unique<K: SortKey>(keys: Seq<K>, r: Seq<usize>, s: Seq<usize>)
    requires
        sorts(keys, r),
        sorts(keys, s),
    ensures
        r == s,
{
    assert forall|k: int| 0 <= k < r.len() implies r[k] == s[k] by {
        sorted_agree(keys, r, s, k);
    }
    assert(r =~= s);
}

/// Two sorted lists agree up to and including `k`.
proof fn sorted_agree<K: SortKey>(keys: Seq<K>, r: Seq<usize>, s: Seq<usize>, k: int)
    requires
        sorts(keys, r),
        sorts(keys, s),
        0 <= k < r.len(),
    ensures
        forall|j: int| 0 <= j <= k ==> r[j] == s[j],
    decreases k,
{
    if k > 0 {
        sorted_agree(keys, r, s, k - 1);
    }
    if r[k] != s[k] {
        assert(s.contains(r[k]));
        let p = choose|p: int| 0 <= p < s.len() && s[p] == r[k];
        assert(r.contains(s[k]));
        let q = choose|q: int| 0 <= q < r.len() && r[q] == s[k];
        if p < k {
            assert(r[p] == r[k]);
            assert(goes_before(keys, r[p] as int, r[k] as int));
            K::is_an_order(keys[r[k] as int], keys[r[k] as int], keys[r[k] as int]);
        } else if q < k {
            assert(s[q] == s[k]);
            assert(goes_before(keys, s[q] as int, s[k] as int));
            K::is_an_order(keys[s[k] as int], keys[s[k] as int], keys[s[k] as int]);
        } else {
            assert(p > k && q > k);
            assert(goes_before(keys, s[k] as int, s[p] as int));
            assert(goes_before(keys, r[k] as int, r[q] as int));
            K::is_an_order(keys[r[k] as int], keys[s[k] as int], keys[r[k] as int]);
        }
    }
}

/// Whole numbers, smallest first.
impl SortKey for i128 {
    open spec fn before(&self, other: &Self) -> bool {
        *self < *other
    }

    proof fn is_an_order(a: Self, b: Self, c: Self) {
    }

    fn comes_before(&self, other: &Self) -> (r: bool) {
        *self < *other
    }
}

/// `a` comes before `b` in the dictionary, character by character.
pub open spec fn text_before(a: Seq<char>, b: Seq<char>) -> bool
    decreases a.len(),
{
    if b.len() == 0 {
        false
    } else if a.len() == 0 {
        true
    } else if a[0] != b[0] {
        a[0] < b[0]
    } else {
        text_before(a.drop_first(), b.drop_first())
    }
}

/// No text comes before itself.
proof fn text_before_nothing_equal(a: Seq<char>)
    ensures
        !text_before(a, a),
    decreases a.len(),
{
    if a.len() > 0 {
        text_before_nothing_equal(a.drop_first());
    }
}

/// The dictionary order is one, and tells any two different texts apart.
pub proof fn text_order(a: Seq<char>, b: Seq<char>, c: Seq<char>)
    ensures
        !text_before(a, a),
        text_before(a, b) && text_before(b, c) ==> text_before(a, c),
        !text_before(a, b) && !text_before(b, c) ==> !text_before(a, c),
        text_before(a, b) || text_before(b, a) || a == b,
    decreases a.len() + b.len() + c.len(),
{
    text_before_nothing_equal(a);
    if a.len() > 0 && b.len() > 0 {
        if c.len() > 0 {
            text_order(a.drop_first(), b.drop_first(), c.drop_first());
        } else {
            text_order(a.drop_first(), b.drop_first(), c);
        }
        if a[0] == b[0] && a.drop_first() == b.drop_first() {
            assert(a =~= seq![a[0]] + a.drop_first());
            assert(b =~= seq![b[0]] + b.drop_first());
        }
    } else if a.len() == 0 && b.len() == 0 {
        assert(a =~= b);
    }
}

/// Whether `a` comes before `b` in the dictionary.
pub fn chars_before(a: &[char], b: &[char]) -> (r: bool)
    ensures
        r == text_before(a@, b@),
{
    let mut i: usize = 0;
    assert(a@.skip(0) =~= a@);
    assert(b@.skip(0) =~= b@);
    while i < a.len() && i < b.len()
        invariant
            i <= a@.len(),
            i <= b@.len(),
            text_before(a@, b@) == text_before(a@.skip(i as int), b@.skip(i as int)),
        decreases a@.len() - i,
    {
        if a[i] != b[i] {
            return a[i] < b[i];
        }
        assert(a@.skip(i as int).drop_first() =~= a@.skip(i + 1));
        assert(b@.skip(i as int).drop_first() =~= b@.skip(i + 1));
        i = i + 1;
    }
    i < b.len()
}

/// A text to sort by, in dictionary order.
#[derive(Debug)]
pub struct TextKey {
    chars: Vec<char>,
}

impl View for TextKey {
    type V = Seq<char>;

    closed spec fn view(&self) -> Seq<char> {
        self.chars@
    }
}

impl TextKey {
    /// The key a text sorts under.
    pub fn new(s: &str) -> (r: TextKey)
        ensures
            r@ == s@,
    {
        TextKey { chars: chars_of(s) }
    }
}

impl SortKey for TextKey {
    open spec fn before(&self, other: &Self) -> bool {
        text_before(self@, other@)
    }

    proof fn is_an_order(a: Self, b: Self, c: Self) {
        text_order(a@, b@, c@);
    }

    fn comes_before(&self, other: &Self) -> (r: bool) {
        chars_before(self.chars.as_slice(), other.chars.as_slice())
    }
}

/// The first character in which two texts differ decides between them, and a text comes before
/// what it begins.
pub proof fn the_first_difference_decides(
    p: Seq<char>,
    x: char,
    y: char,
    s: Seq<char>,
    t: Seq<char>,
)
    requires
        x < y,
    ensures
        text_before(p + seq![x] + s, p + seq![y] + t),
        !text_before(p + seq![y] + t, p + seq![x] + s),
        text_before(p, p + seq![x] + s),
        !text_before(p + seq![x] + s, p),
    decreases p.len(),
{
    let (a, b) = (p + seq![x] + s, p + seq![y] + t);
    if p.len() > 0 {
        let q = p.drop_first();
        the_first_difference_decides(q, x, y, s, t);
        assert(a.drop_first() =~= q + seq![x] + s);
        assert(b.drop_first() =~= q + seq![y] + t);
    }
}

/// What is sorted goes up, and level items stand as they stood before.
pub proof fn sorting_goes_up_and_is_stable<K: SortKey>(keys: Seq<K>, r: Seq<usize>, a: int, b: int)
    requires
        sorts(keys, r),
        0 <= a < b < r.len(),
    ensures
        !keys[r[b] as int].before(&keys[r[a] as int]),
        !keys[r[a] as int].before(&keys[r[b] as int]) ==> r[a] < r[b],
{
    let (i, j) = (r[a] as int, r[b] as int);
    assert(goes_before(keys, i, j));
    if keys[i].before(&keys[j]) && keys[j].before(&keys[i]) {
        K::is_an_order(keys[i], keys[j], keys[i]);
    }
}

/// Whatever the keys are, there is a sorted order of them.
pub proof fn there_is_a_sorted_order<K: SortKey>(keys: Seq<K>, n: int) -> (r: Seq<usize>)
    requires
        0 <= n <= keys.len() <= usize::MAX,
    ensures
        sorted_prefix(keys, r, n),
    decreases n,
{
    if n <= 0 {
        Seq::empty()
    } else {
        let m = n - 1;
        let before = there_is_a_sorted_order(keys, m);
        let p = room_for(keys, before, m, m);
        let out = before.insert(p, m as usize);
        assert forall|v: usize| 0 <= v < n implies #[trigger] out.contains(v) by {
            if v == m {
                assert(out[p] == v);
            } else {
                assert(before.contains(v));
                let k = choose|k: int| 0 <= k < before.len() && before[k] == v;
                if k < p {
                    assert(out[k] == v);
                } else {
                    assert(out[k + 1] == v);
                }
            }
        }
        assert forall|a: int, b: int| 0 <= a < b < out.len() implies goes_before(
            keys,
            #[trigger] out[a] as int,
            #[trigger] out[b] as int,
        ) by {
            let x = if a < p {
                a
            } else {
                a - 1
            };
            let y = if b < p {
                b
            } else {
                b - 1
            };
            if a == p {
                assert(before[y] == out[b]);
            } else if b == p {
                assert(before[a] == out[a]);
                let last = before[p - 1] as int;
                if a < p - 1 {
                    assert(goes_before(keys, before[a] as int, before[p - 1] as int));
                    K::is_an_order(keys[m], keys[last], keys[before[a] as int]);
                    K::is_an_order(keys[before[a] as int], keys[last], keys[m]);
                    K::is_an_order(keys[last], keys[before[a] as int], keys[last]);
                }
                assert(!keys[m].before(&keys[before[a] as int]));
            } else {
                assert(before[x] == out[a]);
                assert(before[y] == out[b]);
            }
        }
        out
    }
}

proof fn room_for<K: SortKey>(keys: Seq<K>, out: Seq<usize>, n: int, p: int) -> (q: int)
    requires
        0 <= n < keys.len(),
        0 <= p <= out.len(),
        forall|k: int| p <= k < out.len() ==> keys[n].before(&keys[#[trigger] out[k] as int]),
    ensures
        0 <= q <= p,
        forall|k: int| q <= k < out.len() ==> keys[n].before(&keys[#[trigger] out[k] as int]),
        q > 0 ==> !keys[n].before(&keys[out[q - 1] as int]),
    decreases p,
{
    if p > 0 && keys[n].before(&keys[out[p - 1] as int]) {
        room_for(keys, out, n, p - 1)
    } else {
        p
    }
}

} // verus!
