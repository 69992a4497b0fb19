//! What binary floating point makes of a quotient or a product, in integers.
//!
//! A floating-point number is a fraction whose denominator is a power of two and whose
//! numerator has a bounded number of significant bits. The result of an operation is the
//! number of that kind nearest to the exact one, the even one of two that are equally near.
//! How many bits there are is told by the least numerator that has them all: [`SINGLE`] or
//! [`DOUBLE`].

use vstd::prelude::*;

verus! {

/// The least number with 24 significant bits.
pub const SINGLE: u128 = 0x80_0000;

/// The least number with 53 significant bits.
pub const DOUBLE: u128 = 0x10_0000_0000_0000;

/// The integer nearest to `n / d`, halves going to the even one.
pub open spec fn half_even(n: nat, d: nat) -> nat {
    if 2 * (n % d) < d || (2 * (n % d) == d && (n / d) % 2 == 0) {
        n / d
    } else {
        n / d + 1
    }
}

/// `n / d`, which is at least `least`, to as many significant bits as `least` has: the last
/// bits that are too many are rounded away.
pub open spec fn cut(n: nat, d: nat, least: nat) -> nat
    decreases n - d,
{
    if least > 0 && d > 0 && n >= 2 * (least * d) {
        proof {
            assert(least * d >= d) by (nonlinear_arith)
                requires
                    least > 0,
                    d > 0,
            ;
        }
        2 * cut(n, 2 * d, least)
    } else {
        half_even(n, d)
    }
}

/// `n / d` to as many significant bits as `least` has, as a fraction with a power of two
/// below.
pub open spec fn nearest(n: nat, d: nat, least: nat) -> (nat, nat)
    decreases
            if n < least * d {
                least * d - n
            } else {
                0
            },
{
    if 0 < n < least * d {
        let (a, b) = nearest(2 * n, d, least);
        (a, 2 * b)
    } else {
        (cut(n, d, least), 1)
    }
}

/// The integer nearest to a fraction, halves going up.
pub open spec fn half_up(f: (nat, nat)) -> nat {
    (2 * f.0 + f.1) / (2 * f.1)
}

fn half_even_of(n: u128, d: u128) -> (r: u128)
    requires
        d > 0,
        n < u128::MAX,
    ensures
        r == half_even(n as nat, d as nat),
{
    let q: u128 = n / d;
    let t: u128 = n % d;
    assert(q <= n) by (nonlinear_arith)
        requires
            q == n / d,
            d > 0,
            n >= 0,
    ;
    if t < d - t || (t == d - t && q % 2 == 0) {
        q
    } else {
        q + 1
    }
}

/// Rounding does not double a number that is at least one.
proof fn cut_is_bounded(n: nat, d: nat, least: nat)
    requires
        0 < d <= n,
        least > 0,
    ensures
        cut(n, d, least) * d <= 2 * n,
    decreases n - d,
{
    if n >= 2 * (least * d) {
        assert(least * d >= d) by (nonlinear_arith)
            requires
                least > 0,
                d > 0,
        ;
        cut_is_bounded(n, 2 * d, least);
        let c = cut(n, 2 * d, least);
        assert((2 * c) * d == c * (2 * d)) by (nonlinear_arith);
    } else {
        let q = n / d;
        assert(half_even(n, d) <= q + 1);
        assert((q + 1) * d <= 2 * n) by (nonlinear_arith)
            requires
                q == n / d,
                0 < d <= n,
        ;
        assert(half_even(n, d) * d <= (q + 1) * d) by (nonlinear_arith)
            requires
                half_even(n, d) <= q + 1,
        ;
    }
}

/// `n / d` to as many significant bits as `least` has, where it is at least `least` or a whole
/// number.
pub fn cut_of(n: u128, d: u128, least: u128) -> (r: u128)
    requires
        d > 0,
        0 < least <= DOUBLE,
        n <= 0x40_0000_0000_0000_0000_0000_0000_0000,
    ensures
        r == cut(n as nat, d as nat, least as nat),
        r <= 2 * n + 1,
    decreases n - d,
{
    let l: u128 = 2 * least;
    let q: u128 = n / l;
    assert((q >= d) == (n >= 2 * (least * d))) by (nonlinear_arith)
        requires
            q == n / l,
            l == 2 * least,
            least > 0,
    ;
    if q >= d {
        assert(least * d >= d) by (nonlinear_arith)
            requires
                least > 0,
                d > 0,
        ;
        proof {
            cut_is_bounded(n as nat, (2 * d) as nat, least as nat);
        }
        let c: u128 = cut_of(n, 2 * d, least);
        assert(c <= n) by (nonlinear_arith)
            requires
                c * (2 * d) <= 2 * n,
                d >= 1,
                c >= 0,
        ;
        2 * c
    } else {
        let r = half_even_of(n, d);
        assert(n / d <= n) by (nonlinear_arith)
            requires
                d > 0,
                n >= 0,
        ;
        r
    }
}

/// How far a small number is doubled.
proof fn nearest_is_bounded(n: nat, d: nat, least: nat)
    requires
        n > 0,
    ensures
        nearest(n, d, least).1 > 0,
        nearest(n, d, least).1 == 1 || nearest(n, d, least).1 * n < 2 * (least * d),
    decreases
            if n < least * d {
                least * d - n
            } else {
                0
            },
{
    if n < least * d {
        nearest_is_bounded(2 * n, d, least);
        let b = nearest(2 * n, d, least).1;
        assert(b * (2 * n) == (2 * b) * n) by (nonlinear_arith);
    }
}

/// The numerator of a number that is not too large has no more bits than there are.
proof fn nearest_numerator(n: nat, d: nat, least: nat)
    requires
        d > 0,
        least > 0,
        n < 2 * (least * d),
    ensures
        nearest(n, d, least).0 <= 2 * least,
    decreases
            if n < least * d {
                least * d - n
            } else {
                0
            },
{
    if 0 < n < least * d {
        nearest_numerator(2 * n, d, least);
    } else {
        assert(n / d < 2 * least) by (nonlinear_arith)
            requires
                n < 2 * (least * d),
                d > 0,
        ;
    }
}

/// What is cut is at least as large as the least number with as many bits.
proof fn cut_is_something(n: nat, d: nat, least: nat)
    requires
        d > 0,
        least > 0,
        n >= least * d,
    ensures
        cut(n, d, least) >= least,
    decreases n - d,
{
    if n >= 2 * (least * d) {
        assert(least * d >= d && least * (2 * d) == 2 * (least * d)) by (nonlinear_arith)
            requires
                least > 0,
                d > 0,
        ;
        cut_is_something(n, 2 * d, least);
    } else {
        assert(n / d >= least) by (nonlinear_arith)
            requires
                n >= least * d,
                d > 0,
        ;
    }
}

/// A number that is not zero stays so.
proof fn nearest_is_something(n: nat, d: nat, least: nat)
    requires
        n > 0,
        d > 0,
        least > 0,
    ensures
        nearest(n, d, least).0 >= least,
    decreases
            if n < least * d {
                least * d - n
            } else {
                0
            },
{
    if n < least * d {
        nearest_is_something(2 * n, d, least);
    } else {
        cut_is_something(n, d, least);
    }
}

/// A whole quotient with no more bits than there are is itself.
pub proof fn whole_quotients_are_exact(d: nat, q: nat, least: nat)
    requires
        d > 0,
        0 < q < 2 * least,
    ensures
        nearest(d * q, d, least).0 == q * nearest(d * q, d, least).1,
        nearest(d * q, d, least).1 > 0,
    decreases
            if d * q < least * d {
                least * d - d * q
            } else {
                0
            },
{
    let n = d * q;
    assert((n < least * d) == (q < least)) by (nonlinear_arith)
        requires
            n == d * q,
            d > 0,
    ;
    assert(n > 0) by (nonlinear_arith)
        requires
            n == d * q,
            d > 0,
            q > 0,
    ;
    if n < least * d {
        assert(d * (2 * q) == 2 * n) by (nonlinear_arith)
            requires
                n == d * q,
        ;
        whole_quotients_are_exact(d, 2 * q, least);
        let b = nearest(2 * n, d, least).1;
        assert((2 * q) * b == q * (2 * b)) by (nonlinear_arith);
    } else {
        assert(!(n >= 2 * (least * d))) by (nonlinear_arith)
            requires
                n == d * q,
                q < 2 * least,
                d > 0,
        ;
        assert(n / d == q && n % d == 0) by (nonlinear_arith)
            requires
                n == d * q,
                d > 0,
        ;
    }
}

/// Rounding goes by significant bits: twice the fraction below and above is the same.
proof fn cut_is_homogeneous(n: nat, d: nat, least: nat)
    requires
        d > 0,
        least > 0,
    ensures
        cut(2 * n, 2 * d, least) == cut(n, d, least),
    decreases n - d,
{
    assert(least * (2 * d) == 2 * (least * d)) by (nonlinear_arith);
    if n >= 2 * (least * d) {
        assert(least * d >= d) by (nonlinear_arith)
            requires
                least > 0,
                d > 0,
        ;
        cut_is_homogeneous(n, 2 * d, least);
    } else {
        assert((2 * n) / (2 * d) == n / d && (2 * n) % (2 * d) == 2 * (n % d)) by (nonlinear_arith)
            requires
                d > 0,
        ;
    }
}

/// Twice an exact number is exact.
proof fn twice_is_exact(n: nat, least: nat)
    requires
        least > 0,
        cut(n, 1, least) == n,
    ensures
        cut(2 * n, 1, least) == 2 * n,
{
    assert(least * 1 == least);
    if 2 * n >= 2 * least {
        cut_is_homogeneous(n, 1, least);
    }
}

/// A number with no more bits than there are, times the denominator of another, is exact.
pub proof fn denominators_are_exact(k: nat, n: nat, d: nat, least: nat)
    requires
        least > 0,
        k < 2 * least,
    ensures
        cut(k * nearest(n, d, least).1, 1, least) == k * nearest(n, d, least).1,
    decreases
            if n < least * d {
                least * d - n
            } else {
                0
            },
{
    assert(least * 1 == least);
    if 0 < n < least * d {
        denominators_are_exact(k, 2 * n, d, least);
        let b = nearest(2 * n, d, least).1;
        twice_is_exact(k * b, least);
        assert(2 * (k * b) == k * (2 * b)) by (nonlinear_arith);
    } else {
        assert(k * 1 == k);
    }
}

/// `n / d` to as many significant bits as `least` has.
pub fn nearest_of(n: u128, d: u128, least: u128) -> (r: (u128, u128))
    requires
        0 < d <= 0x1_0000_0000_0000_0000,
        0 < least <= DOUBLE,
        n <= 0x40_0000_0000_0000_0000_0000_0000_0000,
    ensures
        (r.0 as nat, r.1 as nat) == nearest(n as nat, d as nat, least as nat),
        r.1 > 0,
        r.1 <= 0x20_0000_0000_0000_0000_0000_0000_0000,
        r.1 == 1 || r.1 * n < 2 * (least * d),
        n > 0 ==> r.0 > 0,
        n < 2 * (least * d) ==> r.0 <= 2 * least,
        r.0 <= 2 * n + 2 * least + 1,
    decreases
            if n < least * d {
                least * d - n
            } else {
                0
            },
{
    let most: u128 = 0x10_0000_0000_0000_0000_0000_0000_0000;
    assert(0 < least * d <= most) by (nonlinear_arith)
        requires
            0 < least <= 0x10_0000_0000_0000,
            0 < d <= 0x1_0000_0000_0000_0000,
            most == 0x10_0000_0000_0000_0000_0000_0000_0000,
    ;
    proof {
        if n > 0 {
            nearest_is_something(n as nat, d as nat, least as nat);
            nearest_is_bounded(n as nat, d as nat, least as nat);
        }
        if n < 2 * (least * d) {
            nearest_numerator(n as nat, d as nat, least as nat);
        }
    }
    if n > 0 && n < least * d {
        proof {
            let b = nearest(n as nat, d as nat, least as nat).1;
            assert(b <= b * n) by (nonlinear_arith)
                requires
                    n >= 1,
                    b >= 0,
            ;
        }
        let (a, b) = nearest_of(2 * n, d, least);
        (a, 2 * b)
    } else {
        (cut_of(n, d, least), 1)
    }
}

/// The integer nearest to a fraction, halves going up.
pub fn half_up_of(a: u128, b: u128) -> (r: u128)
    requires
        b > 0,
        2 * a + b <= u128::MAX,
        2 * b <= u128::MAX,
    ensures
        r == half_up((a as nat, b as nat)),
{
    (2 * a + b) / (2 * b)
}

/// A whole number in single precision.
pub open spec fn single(n: nat) -> nat {
    cut(n, 1, SINGLE as nat)
}

/// A whole number in single precision.
pub fn in_single(n: u64) -> (r: u128)
    ensures
        r == single(n as nat),
        r <= 2 * n,
        n > 0 ==> r > 0,
{
    proof {
        if n > 0 {
            cut_is_bounded(n as nat, 1, SINGLE as nat);
        }
        if n >= SINGLE {
            cut_is_something(n as nat, 1, SINGLE as nat);
        } else {
            assert(half_even(n as nat, 1) == n);
        }
    }
    cut_of(n as u128, 1, SINGLE)
}

/// A quotient of at most `q` is at most `q` in any precision.
pub proof fn nearest_stays_below(n: nat, d: nat, q: nat, least: nat)
    requires
        d > 0,
        least > 0,
        n <= d * q,
        n < 2 * (least * d),
    ensures
        nearest(n, d, least).0 <= q * nearest(n, d, least).1,
    decreases
            if n < least * d {
                least * d - n
            } else {
                0
            },
{
    if 0 < n < least * d {
        assert(d * (2 * q) == 2 * (d * q)) by (nonlinear_arith);
        nearest_stays_below(2 * n, d, 2 * q, least);
        let b = nearest(2 * n, d, least).1;
        assert((2 * q) * b == q * (2 * b)) by (nonlinear_arith);
    } else {
        assert(n / d <= q && (n / d == q ==> n % d == 0)) by (nonlinear_arith)
            requires
                n <= d * q,
                d > 0,
        ;
        assert(q * 1 == q);
    }
}

/// The distance between two numbers.
pub open spec fn apart(a: nat, b: nat) -> nat {
    if a < b {
        (b - a) as nat
    } else {
        (a - b) as nat
    }
}

/// Rounding away bits that are too many moves a number by half of the last bit that is left at
/// most: by no more than the number itself divided by twice as many as `least`.
proof fn cut_is_near(n: nat, d: nat, least: nat)
    requires
        d > 0,
        least > 0,
        n >= least * d,
    ensures
        2 * least * apart(cut(n, d, least) * d, n) <= n,
    decreases n - d,
{
    let c = cut(n, d, least);
    if n >= 2 * (least * d) {
        assert(least * d >= d && least * (2 * d) == 2 * (least * d)) by (nonlinear_arith)
            requires
                least > 0,
                d > 0,
        ;
        cut_is_near(n, 2 * d, least);
        let half = cut(n, 2 * d, least);
        assert((2 * half) * d == half * (2 * d)) by (nonlinear_arith);
    } else {
        let (q, t) = (n / d, n % d);
        assert(n == q * d + t && 0 <= t < d) by (nonlinear_arith)
            requires
                q == n / d,
                t == n % d,
                d > 0,
        ;
        assert((q + 1) * d == q * d + d) by (nonlinear_arith);
        let e = apart(c * d, n);
        assert(2 * e <= d);
        assert(2 * least * e <= least * d) by (nonlinear_arith)
            requires
                2 * e <= d,
                least > 0,
        ;
    }
}

/// A quotient is off by no more than itself divided by twice as many as `least`: by a part in
/// as many as there are numbers of that precision up to the next power of two.
pub proof fn quotients_are_near(n: nat, d: nat, least: nat)
    requires
        d > 0,
        least > 0,
    ensures
        nearest(n, d, least).1 > 0,
        2 * least * apart(nearest(n, d, least).0 * d, n * nearest(n, d, least).1) <= n
            * nearest(n, d, least).1,
    decreases
            if n < least * d {
                least * d - n
            } else {
                0
            },
{
    if 0 < n < least * d {
        quotients_are_near(2 * n, d, least);
        let (a, b) = nearest(2 * n, d, least);
        assert((2 * n) * b == n * (2 * b)) by (nonlinear_arith);
    } else if n == 0 {
        assert(0nat / d == 0 && 0nat % d == 0) by (nonlinear_arith)
            requires
                d > 0,
        ;
        assert(least * d > 0) by (nonlinear_arith)
            requires
                least > 0,
                d > 0,
        ;
        assert(0 * d == 0);
        assert(2 * least * 0 == 0) by (nonlinear_arith);
    } else {
        cut_is_near(n, d, least);
        assert(n * 1 == n);
    }
}

/// A whole number is off by no more than itself divided by twice as many as `least`.
pub proof fn whole_numbers_are_near(n: nat, least: nat)
    requires
        least > 0,
    ensures
        2 * least * apart(cut(n, 1, least), n) <= n,
        n < 2 * least ==> cut(n, 1, least) == n,
{
    assert(least * 1 == least);
    if n >= least {
        cut_is_near(n, 1, least);
        assert(cut(n, 1, least) * 1 == cut(n, 1, least));
    } else {
        assert(2 * least * 0 == 0) by (nonlinear_arith);
    }
}

proof fn product_error(a: int, b: int, c: int, d: int, k: int, m: int, least: int)
    requires
        a >= 0,
        b > 0,
        c >= 0,
        d > 0,
        k >= 0,
        m >= 0,
        least > 0,
        -(c * b) <= 2 * least * (a * d - c * b) <= c * b,
        -(k * a) <= 2 * least * (m - k * a) <= k * a,
    ensures
        -(3 * (k * c * b)) <= 2 * least * (m * d - k * c * b) <= 3 * (k * c * b),
{
    let e = a * d - c * b;
    let f = m - k * a;
    let l = 2 * least;
    assert(m * d - k * c * b == f * d + k * e) by (nonlinear_arith)
        requires
            e == a * d - c * b,
            f == m - k * a,
    ;
    let (ka, lf) = (k * a, l * f);
    assert(-(ka * d) <= lf * d <= ka * d) by (nonlinear_arith)
        requires
            -ka <= lf <= ka,
            d > 0,
    ;
    assert(-(k * (c * b)) <= k * (l * e) <= k * (c * b)) by (nonlinear_arith)
        requires
            -(c * b) <= l * e <= c * b,
            k >= 0,
    ;
    assert(k * (a * d) == k * (c * b) + k * e) by (nonlinear_arith)
        requires
            e == a * d - c * b,
    ;
    assert(k * e <= k * (c * b)) by (nonlinear_arith)
        requires
            k * (l * e) <= k * (c * b),
            k >= 0,
            l >= 1,
            c * b >= 0,
    {
        assert(k * (l * e) == l * (k * e));
        assert(k * (c * b) >= 0);
    }
    assert(c * b >= 0) by (nonlinear_arith)
        requires
            c >= 0,
            b > 0,
    ;
    assert(ka * d == k * (a * d)) by (nonlinear_arith)
        requires
            ka == k * a,
    ;
    assert(k * (c * b) == k * c * b) by (nonlinear_arith);
    assert(l * (f * d + k * e) == lf * d + k * (l * e)) by (nonlinear_arith)
        requires
            lf == l * f,
    ;
    let p = k * c * b;
    let g = m * d - p;
    let (u, v) = (lf * d, k * (l * e));
    assert(l * g == u + v);
    assert(k * (c * b) == p);
    assert(ka * d <= 2 * p);
}

/// A number times a quotient, both rounded: the product is off by no more than three times
/// itself divided by twice as many as `least`.
pub proof fn products_are_near(k: nat, c: nat, d: nat, least: nat)
    requires
        d > 0,
        least > 0,
    ensures
        ({
            let (a, b) = nearest(c, d, least);
            let m = cut(k * a, 1, least);
            b > 0 && -(3 * (k * c * b)) <= 2 * least * (m * d - k * c * b) <= 3 * (k * c * b)
        }),
{
    let (a, b) = nearest(c, d, least);
    let m = cut(k * a, 1, least);
    quotients_are_near(c, d, least);
    whole_numbers_are_near(k * a, least);
    let l = (2 * least) as int;
    let e = a * d - c * b;
    assert(l * apart(a * d, c * b) == l * e || l * apart(a * d, c * b) == -(l * e))
        by (nonlinear_arith)
        requires
            apart(a * d, c * b) == e || apart(a * d, c * b) == -e,
    ;
    let f = m - k * a;
    assert(l * apart(m, k * a) == l * f || l * apart(m, k * a) == -(l * f)) by (nonlinear_arith)
        requires
            apart(m, k * a) == f || apart(m, k * a) == -f,
    ;
    assert(l * apart(a * d, c * b) >= 0 && l * apart(m, k * a) >= 0) by (nonlinear_arith)
        requires
            l >= 0,
            apart(a * d, c * b) >= 0,
            apart(m, k * a) >= 0,
    ;
    product_error(a as int, b as int, c as int, d as int, k as int, m as int, least as int);
}

} // verus!
