//! Numbers in the binary64 format of IEEE 754, held as their bit patterns.
//!
//! What is computed of them here is exact up to the one rounding to the
//! nearest binary64 number that the format prescribes for each operation.

use crate::natural::Natural;
use crate::rounding::{
    lemma_division_scaled, lemma_magnitude_ordered, magnitude, nearest, nearest_pattern, one,
    BINADE, INFINITE,
};
use vstd::arithmetic::power2::lemma2_to64;
use vstd::arithmetic::power2::lemma2_to64_rest;
use vstd::arithmetic::power2::lemma_pow2_adds;
use vstd::arithmetic::power2::lemma_pow2_pos;
use vstd::arithmetic::power2::lemma_pow2_strictly_increases;
use vstd::arithmetic::power2::pow2;
use vstd::prelude::*;

verus! {

/// The pattern of the sign bit alone.
pub const SIGN: u64 = 0x8000_0000_0000_0000;

/// The pattern of one hundred.
pub const HUNDRED: u64 = 0x4059_0000_0000_0000;

/// A number in the binary64 format, by its bit pattern.
#[derive(Clone, Copy, Debug)]
pub struct Binary64 {
    pub bits: u64,
}

impl Binary64 {
    /// The bit pattern without the sign.
    pub open spec fn pattern(self) -> nat {
        (self.bits % SIGN) as nat
    }

    pub open spec fn negative(self) -> bool {
        self.bits >= SIGN
    }

    /// Not a number.
    pub open spec fn nan(self) -> bool {
        self.pattern() > INFINITE
    }

    pub open spec fn infinite(self) -> bool {
        self.pattern() == INFINITE
    }

    pub open spec fn finite(self) -> bool {
        self.pattern() < INFINITE
    }

    /// The value of a finite number, in units of `2^-1074`.
    pub open spec fn units(self) -> int {
        if self.negative() {
            -magnitude(self.pattern())
        } else {
            magnitude(self.pattern()) as int
        }
    }

    /// A number that is zero or more. Neither zero nor the sign of a zero counts
    /// as being below it.
    pub open spec fn not_below_zero(self) -> bool {
        !self.nan() && (!self.negative() || self.pattern() == 0)
    }

    /// Whether two numbers compare equal: not a number equals nothing, and the
    /// two zeros are equal.
    pub open spec fn equals(self, other: Binary64) -> bool {
        !self.nan() && !other.nan() && (self.bits == other.bits || (self.pattern() == 0
            && other.pattern() == 0))
    }

    /// The number brought into the range from zero to one hundred. What is not
    /// a number stays so, and a zero keeps its sign.
    pub open spec fn as_percentage(self) -> Binary64 {
        if self.nan() {
            self
        } else if self.negative() && self.pattern() > 0 {
            Binary64 { bits: 0 }
        } else if magnitude(self.pattern()) > 100 * one() {
            Binary64 { bits: HUNDRED }
        } else {
            self
        }
    }

    /// The difference to a smaller number, rounded to the nearest binary64
    /// number; zero where the other is not smaller, or where the difference is
    /// not a number.
    pub open spec fn surplus(self, other: Binary64) -> Binary64 {
        if self.nan() || other.nan() {
            Binary64 { bits: 0 }
        } else if self.infinite() || other.infinite() {
            if self.bits != other.bits && self.bits != SIGN + INFINITE && other.bits != INFINITE {
                Binary64 { bits: INFINITE }
            } else {
                Binary64 { bits: 0 }
            }
        } else if self.units() <= other.units() {
            Binary64 { bits: 0 }
        } else {
            Binary64 { bits: nearest((self.units() - other.units()) as nat, 1) as u64 }
        }
    }

    /// A hundred times this number, rounded to the nearest binary64 number, then
    /// divided by the other and rounded again: the percentage that this number is
    /// of the other. Meant for finite numbers not below zero, the other not zero.
    pub open spec fn percent_of(self, other: Binary64) -> Binary64 {
        let hundredfold = nearest(100 * magnitude(self.pattern()), 1);
        if self.negative() {
            Binary64 { bits: SIGN }
        } else if hundredfold == INFINITE {
            Binary64 { bits: INFINITE }
        } else {
            Binary64 {
                bits: nearest(magnitude(hundredfold) * one(), magnitude(other.pattern())) as u64,
            }
        }
    }

    /// The whole number nearest to a number not below zero, upwards where two are
    /// equally near, but no more than a hundred.
    pub open spec fn whole_percentage(self) -> int {
        let whole = (2 * magnitude(self.pattern()) + one()) / (2 * one());
        if whole < 100 {
            whole as int
        } else {
            100
        }
    }

    pub fn from_bits(bits: u64) -> (r: Binary64)
        ensures
            r.bits == bits,
    {
        Binary64 { bits }
    }

    pub fn to_bits(self) -> (r: u64)
        ensures
            r == self.bits,
    {
        self.bits
    }

    pub fn is_zero(&self) -> (r: bool)
        ensures
            r == (self.pattern() == 0),
    {
        self.bits % SIGN == 0
    }

    pub fn is_finite(&self) -> (r: bool)
        ensures
            r == self.finite(),
    {
        self.bits % SIGN < INFINITE
    }

    pub fn is_not_below_zero(&self) -> (r: bool)
        ensures
            r == self.not_below_zero(),
    {
        self.bits % SIGN <= INFINITE && (self.bits < SIGN || self.bits == SIGN)
    }
}

/// The significant digits of a pattern, as a whole number.
pub open spec fn mantissa(b: nat) -> nat {
    if b < BINADE {
        b
    } else {
        (BINADE + b % (BINADE as nat)) as nat
    }
}

/// How often the mantissa is doubled to give the magnitude.
pub open spec fn scale(b: nat) -> nat {
    if b < BINADE {
        0
    } else {
        (b / (BINADE as nat) - 1) as nat
    }
}

pub(crate) proof fn lemma_parts(b: nat)
    ensures
        magnitude(b) == mantissa(b) * pow2(scale(b)),
        mantissa(b) < 2 * BINADE,
        b < INFINITE ==> scale(b) <= 2045,
        scale(b) > 0 ==> mantissa(b) >= BINADE,
{
    lemma2_to64();
    assert(mantissa(b) * 1 == mantissa(b)) by (nonlinear_arith);
}

pub(crate) proof fn lemma_hundred()
    ensures
        magnitude(HUNDRED as nat) == 100 * one(),
{
    lemma2_to64_rest();
    lemma_pow2_adds(46, 1028);
    assert(0x19_0000_0000_0000 * pow2(1028) == 100 * (pow2(46) * pow2(1028))) by (nonlinear_arith)
        requires
            pow2(46) == 0x4000_0000_0000,
    ;
}

impl Binary64 {
    /// The mantissa and the scale of the number.
    pub(crate) fn parts(&self) -> (r: (u64, u32))
        ensures
            r.0 == mantissa(self.pattern()),
            r.1 == scale(self.pattern()),
    {
        let b: u64 = self.bits % SIGN;
        if b < BINADE {
            (b, 0)
        } else {
            (BINADE + b % BINADE, (b / BINADE - 1) as u32)
        }
    }

    fn magnitude_natural(&self) -> (r: Natural)
        ensures
            r@ == magnitude(self.pattern()),
    {
        let (m, e): (u64, u32) = self.parts();
        let mut r: Natural = Natural::from_u64(m);
        r.shift_left(e);
        proof {
            lemma_parts(self.pattern());
        }
        r
    }

    /// Brings the number into the range from zero to one hundred.
    pub fn clamp_percentage(&self) -> (r: Binary64)
        ensures
            r == self.as_percentage(),
    {
        let b: u64 = self.bits % SIGN;
        proof {
            lemma_hundred();
            if b < HUNDRED {
                lemma_magnitude_ordered(b as nat, HUNDRED as nat);
            }
            if b > HUNDRED {
                lemma_magnitude_ordered(HUNDRED as nat, b as nat);
            }
        }
        if b > INFINITE {
            Binary64 { bits: self.bits }
        } else if self.bits > SIGN {
            Binary64 { bits: 0 }
        } else if b > HUNDRED {
            Binary64 { bits: HUNDRED }
        } else {
            Binary64 { bits: self.bits }
        }
    }

    /// The difference to a smaller number, zero where the other is not smaller.
    pub fn surplus_over(&self, other: &Binary64) -> (r: Binary64)
        ensures
            r == self.surplus(*other),
    {
        let a: u64 = self.bits % SIGN;
        let b: u64 = other.bits % SIGN;
        if a > INFINITE || b > INFINITE {
            return Binary64 { bits: 0 };
        }
        if a == INFINITE || b == INFINITE {
            if self.bits != other.bits && self.bits != SIGN + INFINITE && other.bits != INFINITE {
                return Binary64 { bits: INFINITE };
            }
            return Binary64 { bits: 0 };
        }
        let mut x: Natural = self.magnitude_natural();
        let mut y: Natural = other.magnitude_natural();
        if self.bits < SIGN {
            if other.bits < SIGN {
                if !y.below(&x) {
                    return Binary64 { bits: 0 };
                }
                x.sub(&y);
            } else {
                x.plus(&y);
                if x.is_zero() {
                    return Binary64 { bits: 0 };
                }
            }
            Binary64 { bits: nearest_pattern(x, Natural::from_u64(1)) }
        } else {
            if other.bits < SIGN || !x.below(&y) {
                return Binary64 { bits: 0 };
            }
            y.sub(&x);
            Binary64 { bits: nearest_pattern(y, Natural::from_u64(1)) }
        }
    }

    /// The percentage that this number is of the other.
    pub fn to_percent_of(&self, other: &Binary64) -> (r: Binary64)
        requires
            self.finite(),
            self.not_below_zero(),
            other.finite(),
            other.pattern() > 0,
        ensures
            r == self.percent_of(*other),
    {
        if self.bits >= SIGN {
            return Binary64 { bits: SIGN };
        }
        let mut x: Natural = self.magnitude_natural();
        x.mul_add(100, 0);
        let hundredfold: u64 = nearest_pattern(x, Natural::from_u64(1));
        if hundredfold == INFINITE {
            return Binary64 { bits: INFINITE };
        }
        let mut n: Natural = Binary64 { bits: hundredfold }.magnitude_natural();
        n.shift_left(1074);
        let d: Natural = other.magnitude_natural();
        proof {
            lemma_magnitude_ordered(0, other.pattern());
        }
        Binary64 { bits: nearest_pattern(n, d) }
    }

    /// The nearest whole percentage of a number not below zero.
    pub fn to_whole_percentage(&self) -> (r: i32)
        ensures
            r == self.whole_percentage(),
    {
        let (m, e): (u64, u32) = self.parts();
        proof {
            lemma_parts(self.pattern());
            lemma_pow2_pos(e as nat);
        }
        let ghost p = pow2(e as nat);
        if e >= 1074 {
            proof {
                // The number is at least 2^52.
                let t = pow2((e - 1074) as nat);
                lemma_pow2_adds((e - 1074) as nat, 1074);
                lemma_pow2_pos((e - 1074) as nat);
                lemma_pow2_pos(1074);
                assert(m * (t * one()) >= 100 * one()) by (nonlinear_arith)
                    requires
                        m >= 100,
                        t >= 1,
                        one() >= 1,
                ;
                vstd::arithmetic::div_mod::lemma_div_is_ordered(
                    (100 * (2 * one())) as int,
                    (2 * magnitude(self.pattern()) + one()) as int,
                    (2 * one()) as int,
                );
                vstd::arithmetic::div_mod::lemma_div_by_multiple(100, (2 * one()) as int);
            }
            return 100;
        }
        let k: u32 = 1074 - e;
        let ghost u = pow2(k as nat);
        proof {
            lemma_pow2_adds(k as nat, e as nat);
            lemma_pow2_pos(k as nat);
            lemma_division_scaled(2 * m as nat + u, 2 * u, p);
            assert((2 * m + u) * p == 2 * (m * p) + u * p && (2 * u) * p == 2 * (u * p))
                by (nonlinear_arith);
        }
        if k >= 54 {
            proof {
                lemma2_to64_rest();
                if k > 54 {
                    lemma_pow2_strictly_increases(54, k as nat);
                }
                vstd::arithmetic::div_mod::lemma_basic_div((2 * m + u) as int, (2 * u) as int);
            }
            return 0;
        }
        proof {
            lemma2_to64_rest();
            lemma_pow2_strictly_increases(k as nat, 54);
            vstd::bits::lemma_u64_pow2_no_overflow(k as nat);
            vstd::bits::lemma_u64_shl_is_mul(1, k as u64);
        }
        let step: u64 = 1u64 << (k as u64);
        assert(step == u);
        let whole: u64 = (2 * m + step) / (2 * step);
        if whole < 100 {
            whole as i32
        } else {
            100
        }
    }
}

impl PartialEq for Binary64 {
    fn eq(&self, other: &Binary64) -> (r: bool) {
        let a: u64 = self.bits % SIGN;
        let b: u64 = other.bits % SIGN;
        a <= INFINITE && b <= INFINITE && (self.bits == other.bits || (a == 0 && b == 0))
    }
}

impl vstd::std_specs::cmp::PartialEqSpecImpl for Binary64 {
    open spec fn obeys_eq_spec() -> bool {
        true
    }

    open spec fn eq_spec(&self, other: &Binary64) -> bool {
        self.equals(*other)
    }
}

} // verus!
