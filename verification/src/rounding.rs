//! Rounding of exact quotients: to whole numbers, and to the numbers that the
//! binary64 format of IEEE 754 can hold.
//!
//! Every finite binary64 number is a whole multiple of `2^-1074`, the smallest
//! positive one. Magnitudes are counted in that unit here, so they are natural
//! numbers.

use crate::natural::Natural;
use vstd::arithmetic::div_mod::lemma_fundamental_div_mod;
use vstd::arithmetic::div_mod::lemma_fundamental_div_mod_converse;
use vstd::arithmetic::power2::lemma2_to64;
use vstd::arithmetic::power2::lemma2_to64_rest;
use vstd::arithmetic::power2::lemma_pow2_pos;
use vstd::arithmetic::power2::lemma_pow2_strictly_increases;
use vstd::arithmetic::power2::lemma_pow2_unfold;
use vstd::arithmetic::power2::pow2;
use vstd::prelude::*;

verus! {

/// Two to the power of 52: the patterns between one power of two and the next.
pub const BINADE: u64 = 0x10_0000_0000_0000;

/// The pattern of positive infinity.
pub const INFINITE: u64 = 0x7ff0_0000_0000_0000;

/// The magnitude, in units of `2^-1074`, of the binary64 pattern `b` without its sign.
/// For the pattern of infinity this is where the next number would stand.
pub open spec fn magnitude(b: nat) -> nat {
    if b < BINADE {
        b
    } else {
        ((BINADE + b % (BINADE as nat)) * pow2((b / (BINADE as nat) - 1) as nat)) as nat
    }
}

/// How many units of `2^-1074` make one.
pub open spec fn one() -> nat {
    pow2(1074)
}

/// The whole number nearest to `n / d`; of two equally near, the even one.
pub open spec fn half_even(n: nat, d: nat) -> nat {
    let q = n / d;
    let r = n % d;
    if 2 * r > d || (2 * r == d && q % 2 == 1) {
        q + 1
    } else {
        q
    }
}

/// How often `d` must be doubled until `n / d` is below `2^53`.
pub open spec fn excess(n: nat, d: nat) -> nat
    decreases
            (if n < d {
                0
            } else {
                n - d + 1
            }),
{
    if d == 0 || n < 0x20_0000_0000_0000 * d {
        0
    } else {
        1 + excess(n, 2 * d)
    }
}

/// The pattern of the binary64 number nearest to `n / d` units; of two equally
/// near, the even one. What lies beyond the largest finite number by half a
/// step or more becomes infinite.
pub open spec fn nearest(n: nat, d: nat) -> nat {
    let s = excess(n, d);
    let b = s * BINADE + half_even(n, d * pow2(s));
    if b < INFINITE {
        b as nat
    } else {
        INFINITE as nat
    }
}

pub(crate) proof fn lemma_division_scaled(n: nat, d: nat, p: nat)
    requires
        d > 0,
        p > 0,
    ensures
        d * p > 0,
        (n * p) / (d * p) == n / d,
        (n * p) % (d * p) == (n % d) * p,
        half_even(n * p, d * p) == half_even(n, d),
{
    let q = n / d;
    let r = n % d;
    lemma_fundamental_div_mod(n as int, d as int);
    assert(n * p == q * (d * p) + r * p) by (nonlinear_arith)
        requires
            n == d * q + r,
    ;
    assert(0 <= r * p < d * p) by (nonlinear_arith)
        requires
            0 <= r < d,
            p > 0,
    ;
    lemma_fundamental_div_mod_converse((n * p) as int, (d * p) as int, q as int, (r * p) as int);
    assert((2 * (r * p) > d * p) == (2 * r > d)) by (nonlinear_arith)
        requires
            p > 0,
    ;
    assert((2 * (r * p) == d * p) == (2 * r == d)) by (nonlinear_arith)
        requires
            p > 0,
    ;
}

/// Magnitudes grow with their patterns: from one pattern to the next by the
/// weight of the last place.
pub proof fn lemma_magnitude_step(b: nat)
    ensures
        b < BINADE ==> magnitude(b + 1) == magnitude(b) + 1,
        b >= BINADE ==> magnitude(b + 1) == magnitude(b) + pow2((b / (BINADE as nat) - 1) as nat),
        magnitude(b) < magnitude(b + 1),
{
    lemma2_to64();
    if b + 1 == BINADE {
        assert(magnitude(b + 1) == BINADE * pow2(0));
    } else if b >= BINADE {
        let e = b / (BINADE as nat);
        let f = b % (BINADE as nat);
        let p = pow2((e - 1) as nat);
        lemma_pow2_pos((e - 1) as nat);
        if f + 1 < BINADE {
            assert((b + 1) / (BINADE as nat) == e && (b + 1) % (BINADE as nat) == f + 1);
            assert((BINADE + f + 1) * p == (BINADE + f) * p + p) by (nonlinear_arith);
        } else {
            assert((b + 1) / (BINADE as nat) == e + 1 && (b + 1) % (BINADE as nat) == 0);
            lemma_pow2_unfold(e);
            assert((BINADE + 0) * (2 * p) == (BINADE + f) * p + p) by (nonlinear_arith)
                requires
                    f + 1 == BINADE,
            ;
        }
    }
}

/// A larger pattern has a larger magnitude.
pub proof fn lemma_magnitude_ordered(a: nat, b: nat)
    requires
        a < b,
    ensures
        magnitude(a) < magnitude(b),
    decreases b - a,
{
    lemma_magnitude_step((b - 1) as nat);
    if a < b - 1 {
        lemma_magnitude_ordered(a, (b - 1) as nat);
    }
}

/// Rounding to a whole number moves a quotient by no more than one half, and by
/// one half only to an even number.
pub(crate) proof fn lemma_half_even(n: nat, d: nat)
    requires
        d > 0,
    ensures
        2 * (half_even(n, d) * d) <= 2 * n + d,
        2 * n <= 2 * (half_even(n, d) * d) + d,
        2 * (half_even(n, d) * d) == 2 * n + d ==> half_even(n, d) % 2 == 0,
        2 * n == 2 * (half_even(n, d) * d) + d ==> half_even(n, d) % 2 == 0,
{
    let q = n / d;
    lemma_fundamental_div_mod(n as int, d as int);
    assert((q + 1) * d == q * d + d && q * d == d * q) by (nonlinear_arith);
}

/// The quotient lies below `2^53` after as many doublings of the divisor as
/// [`excess`] says, and not after fewer.
pub(crate) proof fn lemma_excess(n: nat, d: nat)
    requires
        d > 0,
    ensures
        n < 0x20_0000_0000_0000 * (d * pow2(excess(n, d))),
        excess(n, d) > 0 ==> n >= 0x10_0000_0000_0000 * (d * pow2(excess(n, d))),
    decreases
            (if n < d {
                0
            } else {
                n - d + 1
            }),
{
    lemma2_to64();
    if n < 0x20_0000_0000_0000 * d {
        assert(d * 1 == d) by (nonlinear_arith);
    } else {
        lemma_excess(n, 2 * d);
        let s = excess(n, 2 * d);
        lemma_pow2_unfold(s + 1);
        let p = pow2(s);
        assert((2 * d) * p == d * (2 * p)) by (nonlinear_arith);
        if s == 0 {
            assert(d * (2 * p) == 2 * d) by (nonlinear_arith)
                requires
                    p == 1,
            ;
        }
    }
}

/// The pattern that [`nearest`] builds, before what is too large becomes
/// infinite, has the rounded quotient as its magnitude.
pub(crate) proof fn lemma_nearest_magnitude(n: nat, d: nat)
    requires
        d > 0,
    ensures
        ({
            let s = excess(n, d);
            let q = half_even(n, d * pow2(s));
            &&& d * pow2(s) > 0
            &&& q <= 2 * BINADE
            &&& s > 0 ==> q >= BINADE
            &&& magnitude((s * BINADE + q) as nat) == q * pow2(s)
        }),
{
    let s = excess(n, d);
    let p = pow2(s);
    let u = d * p;
    let q = half_even(n, u);
    lemma_excess(n, d);
    lemma_pow2_pos(s);
    lemma2_to64();
    assert(u > 0) by (nonlinear_arith)
        requires
            u == d * p,
            d > 0,
            p > 0,
    ;
    lemma_half_even(n, u);
    assert(q <= 0x20_0000_0000_0000) by (nonlinear_arith)
        requires
            2 * (q * u) <= 2 * n + u,
            n < 0x20_0000_0000_0000 * u,
            u > 0,
    ;
    if s > 0 {
        assert(q >= 0x10_0000_0000_0000) by (nonlinear_arith)
            requires
                2 * n <= 2 * (q * u) + u,
                n >= 0x10_0000_0000_0000 * u,
                u > 0,
        ;
    }
    let b = (s * BINADE + q) as nat;
    if q < BINADE {
        assert(q * 1 == q) by (nonlinear_arith);
    } else if q < 2 * BINADE {
        assert(b == (s + 1) * BINADE + (q - BINADE)) by (nonlinear_arith)
            requires
                b == s * BINADE + q,
        ;
        lemma_fundamental_div_mod_converse(b as int, BINADE as int, s as int + 1, q - BINADE);
        assert(b >= BINADE) by (nonlinear_arith)
            requires
                b == s * BINADE + q,
                q >= BINADE,
        ;
    } else {
        assert(b == (s + 2) * BINADE + 0) by (nonlinear_arith)
            requires
                b == s * BINADE + q,
                q == 2 * BINADE,
        ;
        lemma_fundamental_div_mod_converse(b as int, BINADE as int, s as int + 2, 0);
        assert(b >= BINADE) by (nonlinear_arith)
            requires
                b == s * BINADE + q,
                q >= BINADE,
        ;
        lemma_pow2_unfold(s + 1);
        assert((BINADE + 0) * (2 * p) == (2 * BINADE) * p) by (nonlinear_arith);
    }
}

/// No number is nearer to the quotient than the one that [`nearest`] gives:
/// where that is finite, the quotient `n / d` is at least as far from the
/// magnitude of every other pattern, and as far only where the one given is
/// even.
pub proof fn law_nearest_is_nearest(n: nat, d: nat, c: nat)
    requires
        d > 0,
        nearest(n, d) < INFINITE,
    ensures
        ({
            let ours = magnitude(nearest(n, d)) * d;
            let other = magnitude(c) * d;
            let distance = if ours <= n {
                n - ours
            } else {
                ours - n
            };
            let other_distance = if other <= n {
                n - other
            } else {
                other - n
            };
            &&& distance <= other_distance
            &&& c != nearest(n, d) && distance == other_distance ==> nearest(n, d) % 2 == 0
        }),
{
    let s = excess(n, d);
    let p = pow2(s);
    let u = d * p;
    let q = half_even(n, u);
    let b = nearest(n, d);
    lemma_nearest_magnitude(n, d);
    lemma_half_even(n, u);
    lemma_excess(n, d);
    assert(magnitude(b) * d == q * u) by (nonlinear_arith)
        requires
            magnitude(b) == q * p,
            u == d * p,
    ;
    let m = magnitude(b);
    assert(b % 2 == q % 2) by (nonlinear_arith)
        requires
            b == s * BINADE + q,
            BINADE == 0x10_0000_0000_0000,
    ;
    if c > b {
        lemma_gap_above(s, q, b);
        if c > b + 1 {
            lemma_magnitude_ordered(b + 1, c);
        }
        assert(magnitude(c) * d >= q * u + u) by (nonlinear_arith)
            requires
                magnitude(c) >= m + p,
                m * d == q * u,
                u == d * p,
        ;
    } else if c < b {
        if c < b - 1 {
            lemma_magnitude_ordered(c, (b - 1) as nat);
        }
        lemma_gap_below(s, q, b);
        if s > 0 && q == BINADE {
            lemma_magnitude_ordered(c, b);
            assert(magnitude(c) * d < q * u) by (nonlinear_arith)
                requires
                    magnitude(c) < m,
                    m * d == q * u,
                    d > 0,
            ;
        } else {
            assert(magnitude(c) * d + u <= q * u) by (nonlinear_arith)
                requires
                    magnitude(c) + p <= m,
                    m * d == q * u,
                    u == d * p,
            ;
        }
    }
}

/// What [`nearest`] makes infinite lies beyond the largest finite number by half
/// a step or more.
pub proof fn law_infinite_is_too_large(n: nat, d: nat)
    requires
        d > 0,
        nearest(n, d) == INFINITE,
    ensures
        2 * n >= (magnitude((INFINITE - 1) as nat) + magnitude(INFINITE as nat)) * d,
{
    let s = excess(n, d);
    let p = pow2(s);
    let u = d * p;
    let q = half_even(n, u);
    let b = (s * BINADE + q) as nat;
    lemma_nearest_magnitude(n, d);
    lemma_half_even(n, u);
    lemma_excess(n, d);
    let top = magnitude(INFINITE as nat);
    let last = magnitude((INFINITE - 1) as nat);
    lemma_magnitude_ordered((INFINITE - 1) as nat, INFINITE as nat);
    lemma_gap_below(s, q, b);
    if b > INFINITE {
        lemma_magnitude_ordered(INFINITE as nat, b);
        if b - 1 > INFINITE {
            lemma_magnitude_ordered(INFINITE as nat, (b - 1) as nat);
        }
    }
    let m = magnitude(b);
    assert(m * d == q * u) by (nonlinear_arith)
        requires
            m == q * p,
            u == d * p,
    ;
    if s > 0 && q == BINADE {
        assert(2 * n >= (last + top) * d) by (nonlinear_arith)
            requires
                n >= 0x10_0000_0000_0000 * u,
                q == 0x10_0000_0000_0000,
                m * d == q * u,
                top <= m,
                last <= m,
        ;
    } else {
        assert(2 * n >= (last + top) * d) by (nonlinear_arith)
            requires
                2 * n <= 2 * (q * u) + u,
                2 * (q * u) <= 2 * n + u,
                m * d == q * u,
                u == d * p,
                top <= m,
                last + p <= m,
        ;
    }
}

proof fn lemma_gap_above(s: nat, q: nat, b: nat)
    requires
        b == s * BINADE + q,
        q <= 2 * BINADE,
        s > 0 ==> q >= BINADE,
    ensures
        magnitude(b + 1) >= magnitude(b) + pow2(s),
{
    lemma_magnitude_step(b);
    lemma2_to64();
    lemma_pow2_pos(s);
    if b >= BINADE {
        let e = b / (BINADE as nat);
        assert(e >= s + 1) by (nonlinear_arith)
            requires
                b == s * BINADE + q,
                s > 0 ==> q >= BINADE,
                b >= BINADE,
                e == b / (BINADE as nat),
                BINADE == 0x10_0000_0000_0000,
        ;
        if e > s + 1 {
            lemma_pow2_strictly_increases(s, (e - 1) as nat);
        }
    }
}

proof fn lemma_gap_below(s: nat, q: nat, b: nat)
    requires
        b == s * BINADE + q,
        0 < b,
        q <= 2 * BINADE,
        s > 0 ==> q >= BINADE,
    ensures
        magnitude((b - 1) as nat) <= magnitude(b),
        !(s > 0 && q == BINADE) ==> magnitude((b - 1) as nat) + pow2(s) <= magnitude(b),
{
    let a = (b - 1) as nat;
    lemma_magnitude_step(a);
    lemma2_to64();
    if !(s > 0 && q == BINADE) && a >= BINADE {
        let e = a / (BINADE as nat);
        assert(e >= s + 1) by (nonlinear_arith)
            requires
                a == s * BINADE + q - 1,
                s > 0 ==> q > BINADE,
                a >= BINADE,
                e == a / (BINADE as nat),
                BINADE == 0x10_0000_0000_0000,
        ;
        if e > s + 1 {
            lemma_pow2_strictly_increases(s, (e - 1) as nat);
        }
    }
}

/// A magnitude that the format can hold is not rounded at all.
pub proof fn law_exact_is_kept(n: nat, d: nat, m: nat, t: nat)
    requires
        d > 0,
        m < 2 * BINADE,
        t <= 2045,
        n == m * pow2(t) * d,
    ensures
        nearest(n, d) < INFINITE,
        magnitude(nearest(n, d)) == m * pow2(t),
{
    let s = excess(n, d);
    let p = pow2(s);
    let u = d * p;
    lemma_excess(n, d);
    lemma_nearest_magnitude(n, d);
    lemma_pow2_pos(s);
    lemma_pow2_pos(t);
    if s > t {
        lemma_pow2_unfold(s);
        let h = pow2((s - 1) as nat);
        if s - 1 > t {
            lemma_pow2_strictly_increases(t, (s - 1) as nat);
        }
        assert(m * pow2(t) * d < 0x10_0000_0000_0000 * (d * p)) by (nonlinear_arith)
            requires
                m < 0x20_0000_0000_0000,
                pow2(t) <= h,
                p == 2 * h,
                d > 0,
                h > 0,
        ;
        assert(false);
    }
    let r = pow2((t - s) as nat);
    vstd::arithmetic::power2::lemma_pow2_adds((t - s) as nat, s);
    let q = m * r;
    assert(m * (r * p) * d == q * (d * p) && m * (r * p) == q * p) by (nonlinear_arith)
        requires
            q == m * r,
    ;
    lemma_fundamental_div_mod_converse(n as int, u as int, q as int, 0);
    assert(half_even(n, u) == q);
    // What is infinite is larger.
    let b = (s * BINADE + q) as nat;
    if b >= INFINITE {
        if b > INFINITE {
            lemma_magnitude_ordered(INFINITE as nat, b);
        }
        assert(magnitude(INFINITE as nat) == BINADE * pow2(2046)) by {
            assert(INFINITE as nat / (BINADE as nat) == 2047);
            assert(INFINITE as nat % (BINADE as nat) == 0);
        }
        lemma_pow2_unfold(2046);
        if t < 2045 {
            lemma_pow2_strictly_increases(t, 2045);
        }
        let h = pow2(2045);
        lemma_pow2_pos(2045);
        assert(m * pow2(t) < BINADE * (2 * h)) by (nonlinear_arith)
            requires
                m < 2 * BINADE,
                pow2(t) <= h,
                h > 0,
        ;
        assert(false);
    }
}

/// Rounding keeps the order: of two magnitudes the larger is not rounded to
/// less.
pub proof fn law_nearest_keeps_order(n1: nat, n2: nat)
    requires
        n1 <= n2,
    ensures
        nearest(n1, 1) <= nearest(n2, 1),
{
    let s1 = excess(n1, 1);
    let s2 = excess(n2, 1);
    lemma_excess(n1, 1);
    lemma_excess(n2, 1);
    lemma_nearest_magnitude(n1, 1);
    lemma_nearest_magnitude(n2, 1);
    let p1 = pow2(s1);
    let p2 = pow2(s2);
    lemma_pow2_pos(s1);
    assert(1 * p1 == p1 && 1 * p2 == p2) by (nonlinear_arith);
    if s1 > s2 {
        lemma_pow2_unfold(s1);
        if s1 - 1 > s2 {
            lemma_pow2_strictly_increases(s2, (s1 - 1) as nat);
        }
        assert(false);
    }
    let q1 = half_even(n1, p1);
    let q2 = half_even(n2, p2);
    if s1 == s2 {
        vstd::arithmetic::div_mod::lemma_div_is_ordered(n1 as int, n2 as int, p1 as int);
        if n1 / p1 == n2 / p1 {
            lemma_fundamental_div_mod(n1 as int, p1 as int);
            lemma_fundamental_div_mod(n2 as int, p1 as int);
        }
        assert(q1 <= q2);
    } else {
        assert(s1 * BINADE + q1 <= s2 * BINADE + q2) by (nonlinear_arith)
            requires
                s1 + 1 <= s2,
                q1 <= 2 * BINADE,
                q2 >= BINADE,
        ;
    }
}

/// Computes [`nearest`].
pub(crate) fn nearest_pattern(n: Natural, d: Natural) -> (r: u64)
    requires
        d@ > 0,
    ensures
        r == nearest(n@, d@),
{
    let ghost num: nat = n@;
    let ghost den: nat = d@;
    let mut rest: Natural = n;
    let mut scaled: Natural = d;
    scaled.shift_left(53);
    let mut s: u64 = 0;
    let ghost mut unit: nat = den;
    proof {
        lemma2_to64();
        lemma2_to64_rest();
        assert(den * pow2(0) == den) by (nonlinear_arith)
            requires
                pow2(0) == 1,
        ;
    }
    while s < 2047 && !rest.below(&scaled)
        invariant
            s <= 2047,
            rest@ == num,
            unit > 0,
            unit == den * pow2(s as nat),
            scaled@ == 0x20_0000_0000_0000 * unit,
            excess(num, den) == s + excess(num, unit),
        decreases 2047 - s,
    {
        scaled.mul_add(2, 0);
        s = s + 1;
        proof {
            lemma_pow2_unfold(s as nat);
            let p = pow2((s - 1) as nat);
            assert(den * (2 * p) == 2 * (den * p)) by (nonlinear_arith);
            unit = 2 * unit;
        }
    }
    if !rest.below(&scaled) {
        return INFINITE;
    }
    let mut q: u64 = 0;
    let mut i: u64 = 0;
    proof {
        assert(num * 1 == num && 0 * scaled@ == 0) by (nonlinear_arith);
    }
    while i < 53
        invariant
            i <= 53,
            q < pow2(i as nat),
            rest@ < scaled@,
            num * pow2(i as nat) == q * scaled@ + rest@,
        decreases 53 - i,
    {
        let ghost before = rest@;
        let ghost p = pow2(i as nat);
        proof {
            lemma2_to64();
            lemma2_to64_rest();
            lemma_pow2_unfold((i + 1) as nat);
            if i < 53 {
                lemma_pow2_strictly_increases(i as nat, 53);
            }
            assert(num * (2 * p) == (2 * q) * scaled@ + 2 * before) by (nonlinear_arith)
                requires
                    num * p == q * scaled@ + before,
            ;
        }
        rest.mul_add(2, 0);
        q = 2 * q;
        if !rest.below(&scaled) {
            rest.sub(&scaled);
            proof {
                assert((q + 1) * scaled@ == q * scaled@ + scaled@) by (nonlinear_arith);
            }
            q = q + 1;
        }
        i = i + 1;
    }
    let ghost last: nat = rest@;
    proof {
        lemma2_to64_rest();
        let r = num - q * unit;
        assert(last == 0x20_0000_0000_0000 * r) by (nonlinear_arith)
            requires
                r == num - q * unit,
                num * 0x20_0000_0000_0000 == q * (0x20_0000_0000_0000 * unit) + last,
        ;
        lemma_fundamental_div_mod_converse(num as int, unit as int, q as int, r);
    }
    rest.mul_add(2, 0);
    let up: bool = scaled.below(&rest) || (!rest.below(&scaled) && q % 2 == 1);
    let b: u64 = s * BINADE + q + (if up {
        1
    } else {
        0
    });
    if b < INFINITE {
        b
    } else {
        INFINITE
    }
}

} // verus!
