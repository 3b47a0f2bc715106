//! What holds of numbers: of binary64 numbers, of their notation, and of what
//! is read from text.

use crate::binary64::{lemma_hundred, Binary64, SIGN};
use crate::decimal::{decimal, fixed, signed_decimal};
use crate::laws::lemma_decimal_digits;
use crate::numeral::{
    after_sign, appended, exponent_from, is_digit, is_word, minus_at, number_from, numeral,
    run_end, scaled_by_ten, small, ten, trimmed, trimmed_end, white_space, QUIET_NAN,
};
use crate::rounding::{
    half_even, law_exact_is_kept, law_infinite_is_too_large, law_nearest_is_nearest,
    lemma_half_even, lemma_magnitude_ordered, magnitude, nearest, one, INFINITE,
};
use crate::types::count_text;
use vstd::arithmetic::div_mod::lemma_fundamental_div_mod;
use vstd::arithmetic::power::pow;
use vstd::arithmetic::power2::lemma2_to64;
use vstd::arithmetic::power2::lemma_pow2_pos;
use vstd::arithmetic::power2::pow2;
use vstd::prelude::*;

verus! {

/// How far the number of pattern `b` is from `n / d` units, taken `d` times.
pub open spec fn gap(b: nat, n: nat, d: nat) -> int {
    if magnitude(b) * d <= n {
        n - magnitude(b) * d
    } else {
        magnitude(b) * d - n
    }
}

/// The finite number of pattern `b` is as near to `n / d` units as any, and of
/// several as near it is the even one.
#[verifier::opaque]
pub open spec fn closest(b: nat, n: nat, d: nat) -> bool {
    &&& b < INFINITE
    &&& forall|c: nat|
        gap(b, n, d) <= #[trigger] gap(c, n, d) && (c != b && gap(b, n, d) == gap(c, n, d) ==> b % 2
            == 0)
}

/// The pattern is the closest to `n / d` units, or infinite where those lie half
/// a step or more beyond the largest finite number.
pub open spec fn rounded(b: nat, n: nat, d: nat) -> bool {
    ||| closest(b, n, d)
    ||| b == INFINITE && 2 * n >= (magnitude((INFINITE - 1) as nat) + magnitude(INFINITE as nat))
        * d
}

pub(crate) proof fn lemma_nearest_is_rounded(n: nat, d: nat)
    requires
        d > 0,
    ensures
        rounded(nearest(n, d), n, d),
{
    reveal(closest);
    let b = nearest(n, d);
    if b < INFINITE {
        assert forall|c: nat|
            gap(b, n, d) <= #[trigger] gap(c, n, d) && (c != b && gap(b, n, d) == gap(c, n, d) ==> b
                % 2 == 0) by {
            law_nearest_is_nearest(n, d, c);
        }
    } else {
        law_infinite_is_too_large(n, d);
    }
}

/// The difference to a smaller number is the exact difference, rounded once; to a
/// number that is not smaller it is zero. Neither is ever below zero.
pub proof fn law_surplus(a: Binary64, b: Binary64)
    ensures
        !a.surplus(b).negative() && !a.surplus(b).nan(),
        a.nan() || b.nan() ==> a.surplus(b).bits == 0,
        a.finite() && b.finite() && a.units() <= b.units() ==> a.surplus(b).bits == 0,
        a.finite() && b.finite() && a.units() > b.units() ==> rounded(
            a.surplus(b).pattern(),
            (a.units() - b.units()) as nat,
            1,
        ),
        !a.nan() && !b.nan() && (a.infinite() || b.infinite()) ==> (if a.units() > b.units() {
            a.surplus(b).bits == INFINITE
        } else {
            a.surplus(b).bits == 0
        }),
{
    if a.finite() && b.finite() && a.units() > b.units() {
        lemma_nearest_is_rounded((a.units() - b.units()) as nat, 1);
    }
    lemma_magnitude_ordered(0, INFINITE as nat);
    if a.finite() {
        lemma_magnitude_ordered(a.pattern(), INFINITE as nat);
    }
    if b.finite() {
        lemma_magnitude_ordered(b.pattern(), INFINITE as nat);
    }
}

/// Two numbers are equal where their values are, whatever the sign of a zero;
/// what is not a number equals nothing.
pub proof fn law_equality(a: Binary64, b: Binary64)
    ensures
        a.nan() || b.nan() ==> !a.equals(b),
        !a.nan() && !b.nan() ==> (a.equals(b) <==> a.units() == b.units()),
{
    if a.pattern() < b.pattern() {
        lemma_magnitude_ordered(a.pattern(), b.pattern());
    } else if b.pattern() < a.pattern() {
        lemma_magnitude_ordered(b.pattern(), a.pattern());
    }
    if a.pattern() > 0 {
        lemma_magnitude_ordered(0, a.pattern());
    }
    if b.pattern() > 0 {
        lemma_magnitude_ordered(0, b.pattern());
    }
}

/// A percentage is the number itself where that lies from zero to a hundred, and
/// the nearer end of that range where it does not. What is not a number stays so.
pub proof fn law_percentage(value: Binary64)
    ensures
        value.nan() ==> value.as_percentage() == value,
        !value.nan() && 0 <= value.units() <= 100 * one() ==> value.as_percentage() == value,
        !value.nan() && value.units() < 0 ==> value.as_percentage().bits == 0,
        !value.nan() && value.units() > 100 * one() ==> value.as_percentage().finite()
            && value.as_percentage().units() == 100 * one(),
{
    lemma_hundred();
    if value.pattern() > 0 {
        lemma_magnitude_ordered(0, value.pattern());
    }
}

/// A whole percentage is the whole number nearest to a number not below zero, upwards
/// where two are equally near, and a hundred for all that would be more.
pub proof fn law_whole_percentage(value: Binary64)
    requires
        value.not_below_zero(),
    ensures
        2 * magnitude(value.pattern()) >= 199 * one() ==> value.whole_percentage() == 100,
        2 * magnitude(value.pattern()) < 199 * one() ==> ({
            let w = value.whole_percentage();
            let m = magnitude(value.pattern());
            0 <= w < 100 && 2 * (w * one()) - one() <= 2 * m < 2 * (w * one()) + one()
        }),
{
    let o = one();
    let m = magnitude(value.pattern());
    let w = (2 * m + o) / (2 * o);
    lemma_pow2_pos(1074);
    lemma_fundamental_div_mod((2 * m + o) as int, (2 * o) as int);
    assert((2 * o) * w == 2 * (w * o)) by (nonlinear_arith);
    if 2 * m >= 199 * o {
        assert(w >= 100) by (nonlinear_arith)
            requires
                2 * m + o < 2 * (w * o) + 2 * o,
                2 * m >= 199 * o,
                o > 0,
        ;
    } else {
        assert(w < 100) by (nonlinear_arith)
            requires
                2 * (w * o) <= 2 * m + o,
                2 * m < 199 * o,
                o > 0,
        ;
        assert(w * o >= 0) by (nonlinear_arith);
    }
}

/// The share that a part is of a whole, in percent, may be computed by way of the
/// number of pattern `h`: that is a hundred times the part, rounded, and the share
/// is what it makes of the whole, rounded again.
pub open spec fn share_by_way_of(part: nat, whole: nat, h: nat, share: nat) -> bool {
    &&& rounded(h, 100 * magnitude(part), 1)
    &&& if h == INFINITE {
        share == INFINITE
    } else {
        rounded(share, magnitude(h) * one(), magnitude(whole))
    }
}

/// A share is computed in two steps, each rounded once: a hundred times the part,
/// then that divided by the whole. It is never below zero, and zero for a part that
/// is.
pub proof fn law_share(part: Binary64, whole: Binary64)
    requires
        part.finite() && part.not_below_zero(),
        whole.finite() && whole.not_below_zero() && whole.pattern() > 0,
    ensures
        part.pattern() == 0 ==> part.percent_of(whole).pattern() == 0,
        part.percent_of(whole).not_below_zero(),
        part.pattern() > 0 ==> exists|h: nat| #[trigger]
            share_by_way_of(
                part.pattern(),
                whole.pattern(),
                h,
                part.percent_of(whole).pattern(),
            ),
{
    let p = part.pattern();
    let w = whole.pattern();
    let h = nearest(100 * magnitude(p), 1);
    let share = nearest(magnitude(h) * one(), magnitude(w));
    lemma_magnitude_ordered(0, w);
    if p > 0 {
        assert(rounded(h, 100 * magnitude(p), 1)) by {
            lemma_nearest_is_rounded(100 * magnitude(p), 1);
        }
        assert(rounded(share, magnitude(h) * one(), magnitude(w))) by {
            lemma_nearest_is_rounded(magnitude(h) * one(), magnitude(w));
        }
        assert(share_by_way_of(p, w, h, part.percent_of(whole).pattern()));
    } else {
        lemma_nearest_of_nothing(1);
        assert(0 * one() == 0) by (nonlinear_arith);
        lemma_nearest_of_nothing(magnitude(w));
    }
}

proof fn lemma_nearest_of_nothing(d: nat)
    requires
        d > 0,
    ensures
        nearest(0, d) == 0,
{
    lemma2_to64();
    assert(0 == 0 * pow2(0) * d) by (nonlinear_arith);
    law_exact_is_kept(0, d, 0, 0);
    if nearest(0, d) > 0 {
        lemma_magnitude_ordered(0, nearest(0, d));
    }
    assert(0 * pow2(0) == 0) by (nonlinear_arith);
}

/// Decimal notation is made of digits, has no zero in front of others, and
/// denotes its number.
pub proof fn law_decimal(n: nat)
    ensures
        decimal(n).len() > 0,
        forall|i: int| 0 <= i < decimal(n).len() ==> is_digit(#[trigger] decimal(n)[i]),
        appended(0, decimal(n), 0, decimal(n).len()) == n,
        decimal(n).len() > 1 ==> decimal(n)[0] != '0',
    decreases n,
{
    lemma_decimal_digits(n);
    if n >= 10 {
        law_decimal(n / 10);
        assert(decimal(n)[0] == decimal(n / 10)[0]);
        if n / 10 >= 10 {
            lemma_decimal_digits(n / 10 / 10);
        }
    }
}

/// A negative number is written like its opposite, with a minus in front.
pub proof fn law_signed_decimal(n: int)
    ensures
        n >= 0 ==> signed_decimal(n) == decimal(n as nat),
        n < 0 ==> signed_decimal(n) == seq!['-'] + signed_decimal(-n),
{
}

/// A finite number is written as the nearest number that has the wanted places:
/// its tenths, or its ones, are off by one half at most, and by one half only
/// where the last digit is even.
pub proof fn law_fixed(value: Binary64, tenths: bool)
    requires
        value.finite(),
    ensures
        exists|t: nat|
            ({
                let m = magnitude(value.pattern()) * (if tenths {
                    10nat
                } else {
                    1
                });
                &&& 2 * (t * one()) <= 2 * m + one()
                &&& 2 * m <= 2 * (t * one()) + one()
                &&& (2 * (t * one()) == 2 * m + one() || 2 * m == 2 * (t * one()) + one()) ==> t % 2
                    == 0
                &&& fixed(value, tenths) == (if value.negative() {
                    seq!['-']
                } else {
                    seq![]
                }) + (if tenths {
                    #[trigger] decimal(t / 10) + seq!['.'] + decimal(t % 10)
                } else {
                    decimal(t)
                })
            }),
{
    lemma_pow2_pos(1074);
    let m = magnitude(value.pattern());
    let f: nat = if tenths {
        10
    } else {
        1
    };
    assert(m * 1 == m) by (nonlinear_arith);
    let t = half_even(m * f, one());
    lemma_half_even(m * f, one());
    let sign: Seq<char> = if value.negative() {
        seq!['-']
    } else {
        seq![]
    };
    if tenths {
        assert(fixed(value, tenths) =~= sign + (decimal(t / 10) + seq!['.'] + decimal(t % 10)));
    } else {
        assert(fixed(value, tenths) =~= sign + decimal(t));
        assert(decimal(t / 10).len() >= 0);
    }
}

/// What is not finite is written in letters.
pub proof fn law_fixed_not_finite(value: Binary64, tenths: bool)
    ensures
        value.nan() ==> fixed(value, tenths) == seq!['N', 'a', 'N'],
        value.infinite() && !value.negative() ==> fixed(value, tenths) == seq!['i', 'n', 'f'],
        value.infinite() && value.negative() ==> fixed(value, tenths) == seq!['-', 'i', 'n', 'f'],
{
    assert(seq![] + seq!['i', 'n', 'f'] =~= seq!['i', 'n', 'f']);
    assert(seq!['-'] + seq!['i', 'n', 'f'] =~= seq!['-', 'i', 'n', 'f']);
}

/// Trimming takes white space and nothing else, from the ends alone, and all of
/// it there.
pub proof fn law_trimmed(s: Seq<char>)
    ensures
        exists|i: int, j: int|
            0 <= i <= j <= s.len() && trimmed(s) == #[trigger] s.subrange(i, j) && (forall|k: int|
                0 <= k < i || j <= k < s.len() ==> white_space(#[trigger] s[k])) && (i < j ==> (
            !white_space(s[i]) && !white_space(s[j - 1]))),
    decreases s.len(),
{
    if s.len() > 0 && white_space(s[0]) {
        let t = s.drop_first();
        law_trimmed(t);
        let (i, j) = choose|i: int, j: int|
            0 <= i <= j <= t.len() && trimmed(t) == #[trigger] t.subrange(i, j) && (forall|k: int|
                0 <= k < i || j <= k < t.len() ==> white_space(#[trigger] t[k])) && (i < j ==> (
            !white_space(t[i]) && !white_space(t[j - 1])));
        assert(t.subrange(i, j) =~= s.subrange(i + 1, j + 1));
        assert forall|k: int| 0 <= k < i + 1 || j + 1 <= k < s.len() implies white_space(
            #[trigger] s[k],
        ) by {
            if k > 0 {
                assert(s[k] == t[k - 1]);
            }
        }
    } else {
        lemma_trimmed_end(s);
        let j = choose|j: int|
            0 <= j <= s.len() && trimmed_end(s) == #[trigger] s.subrange(0, j) && (forall|k: int|
                j <= k < s.len() ==> white_space(#[trigger] s[k])) && (j > 0 ==> !white_space(
                s[j - 1],
            ));
        assert(s.subrange(0, j) == trimmed(s));
    }
}

proof fn lemma_trimmed_end(s: Seq<char>)
    ensures
        exists|j: int|
            0 <= j <= s.len() && trimmed_end(s) == #[trigger] s.subrange(0, j) && (forall|k: int|
                j <= k < s.len() ==> white_space(#[trigger] s[k])) && (j > 0 ==> !white_space(
                s[j - 1],
            )),
    decreases s.len(),
{
    if s.len() > 0 && white_space(s.last()) {
        let t = s.drop_last();
        lemma_trimmed_end(t);
        let j = choose|j: int|
            0 <= j <= t.len() && trimmed_end(t) == #[trigger] t.subrange(0, j) && (forall|k: int|
                j <= k < t.len() ==> white_space(#[trigger] t[k])) && (j > 0 ==> !white_space(
                t[j - 1],
            ));
        assert(t.subrange(0, j) =~= s.subrange(0, j));
        assert forall|k: int| j <= k < s.len() implies white_space(#[trigger] s[k]) by {
            if k < t.len() {
                assert(s[k] == t[k]);
            }
        }
    } else {
        assert(s.subrange(0, s.len() as int) =~= s);
    }
}

/// The characters that count as white space are these and no others.
pub proof fn law_white_space(c: char)
    ensures
        white_space(c) <==> seq![
            9u32, 10, 11, 12, 13, 0x20, 0x85, 0xa0, 0x1680, 0x2000, 0x2001, 0x2002, 0x2003, 0x2004,
            0x2005, 0x2006, 0x2007, 0x2008, 0x2009, 0x200a, 0x2028, 0x2029, 0x202f, 0x205f, 0x3000,
        ].contains(c as u32),
{
    let codes = seq![
        9u32, 10, 11, 12, 13, 0x20, 0x85, 0xa0, 0x1680, 0x2000, 0x2001, 0x2002, 0x2003, 0x2004,
        0x2005, 0x2006, 0x2007, 0x2008, 0x2009, 0x200a, 0x2028, 0x2029, 0x202f, 0x205f, 0x3000,
    ];
    if white_space(c) {
        let n = c as u32;
        let i: int = if n <= 13 {
            n - 9
        } else if n == 0x20 {
            5
        } else if n == 0x85 {
            6
        } else if n == 0xa0 {
            7
        } else if n == 0x1680 {
            8
        } else if n <= 0x200a {
            9 + (n - 0x2000)
        } else if n == 0x2028 {
            20
        } else if n == 0x2029 {
            21
        } else if n == 0x202f {
            22
        } else if n == 0x205f {
            23
        } else {
            24
        };
        assert(codes[i] == n);
    }
}

/// The parts that a decimal numeral is spelled with.
pub struct Parts {
    pub sign: Seq<char>,
    pub whole: Seq<char>,
    pub pointed: bool,
    pub places: Seq<char>,
    /// The letter that marks an exponent, its sign and its digits.
    pub exponent: Option<(char, Seq<char>, Seq<char>)>,
}

pub open spec fn all_digits(s: Seq<char>) -> bool {
    forall|i: int| 0 <= i < s.len() ==> is_digit(#[trigger] s[i])
}

/// A sign, or none.
pub open spec fn is_sign(s: Seq<char>) -> bool {
    s == Seq::<char>::empty() || s == seq!['+'] || s == seq!['-']
}

/// The number that digits denote.
pub open spec fn denoted(s: Seq<char>) -> nat {
    appended(0, s, 0, s.len())
}

impl Parts {
    /// The parts make a numeral: places behind a point alone, at least one digit, and
    /// at least one in an exponent.
    pub open spec fn make_a_numeral(self) -> bool {
        &&& is_sign(self.sign)
        &&& all_digits(self.whole)
        &&& all_digits(self.places)
        &&& self.whole.len() + self.places.len() > 0
        &&& !self.pointed ==> self.places.len() == 0
        &&& self.exponent matches Some((mark, sign, digits)) ==> {
            &&& mark == 'e' || mark == 'E'
            &&& is_sign(sign)
            &&& all_digits(digits)
            &&& digits.len() > 0
        }
    }

    pub open spec fn tail(self) -> Seq<char> {
        match self.exponent {
            Some((mark, sign, digits)) => seq![mark] + sign + digits,
            None => seq![],
        }
    }

    pub open spec fn fraction(self) -> Seq<char> {
        if self.pointed {
            seq!['.'] + self.places
        } else {
            seq![]
        }
    }

    /// The parts, one behind the other.
    pub open spec fn spelled(self) -> Seq<char> {
        self.sign + self.whole + self.fraction() + self.tail()
    }

    /// The power of ten that the digits are multiplied by.
    pub open spec fn power(self) -> int {
        (match self.exponent {
            Some((_, sign, digits)) => if sign == seq!['-'] {
                -denoted(digits)
            } else {
                denoted(digits) as int
            },
            None => 0,
        }) - self.places.len()
    }
}

proof fn lemma_run(s: Seq<char>, i: nat, j: nat)
    requires
        i <= j <= s.len(),
        forall|k: int| i <= k < j ==> is_digit(#[trigger] s[k]),
        j < s.len() ==> !is_digit(s[j as int]),
    ensures
        run_end(s, i) == j,
    decreases j - i,
{
    if i < j {
        assert(is_digit(s[i as int]));
        lemma_run(s, i + 1, j);
    }
}

proof fn lemma_run_is_digits(s: Seq<char>, i: nat)
    requires
        i <= s.len(),
    ensures
        i <= run_end(s, i) <= s.len(),
        forall|k: int| i <= k < run_end(s, i) ==> is_digit(#[trigger] s[k]),
        run_end(s, i) < s.len() ==> !is_digit(s[run_end(s, i) as int]),
    decreases s.len() - i,
{
    if i < s.len() && is_digit(s[i as int]) {
        lemma_run_is_digits(s, i + 1);
    }
}

proof fn lemma_appended_moved(start: nat, s: Seq<char>, i: nat, t: Seq<char>, j: nat, n: nat)
    requires
        i + n <= s.len(),
        j + n <= t.len(),
        forall|k: int| 0 <= k < n ==> s[i + k] == #[trigger] t[j + k],
    ensures
        appended(start, s, i, i + n) == appended(start, t, j, j + n),
    decreases n,
{
    if n > 0 {
        lemma_appended_moved(start, s, i, t, j, (n - 1) as nat);
        assert(s[i + (n - 1)] == t[j + (n - 1)]);
    }
}

proof fn lemma_appended_split(t: Seq<char>, m: nat, n: nat)
    requires
        m <= n <= t.len(),
    ensures
        appended(appended(0, t, 0, m), t, m, n) == appended(0, t, 0, n),
    decreases n,
{
    if m < n {
        lemma_appended_split(t, m, (n - 1) as nat);
    }
}

proof fn lemma_ten_is_power(k: nat)
    ensures
        ten(k) == pow(10, k),
        ten(k) > 0,
    decreases k,
{
    reveal(pow);
    if k > 0 {
        lemma_ten_is_power((k - 1) as nat);
    }
}

proof fn lemma_parts_are_read(parts: Parts)
    requires
        parts.make_a_numeral(),
    ensures
        number_from(parts.spelled(), parts.sign.len()) == Some(
            (denoted(parts.whole + parts.places), parts.power()),
        ),
{
    let s = parts.spelled();
    let i = parts.sign.len();
    let a = i + parts.whole.len();
    let b = a + parts.fraction().len();
    let all = parts.whole + parts.places;
    assert forall|k: int| i <= k < a implies is_digit(#[trigger] s[k]) by {
        assert(s[k] == parts.whole[k - i]);
    }
    assert(a < s.len() ==> !is_digit(s[a as int]));
    lemma_run(s, i, a);
    assert forall|k: int| 0 <= k < parts.whole.len() implies s[i + k] == #[trigger] all[0 + k] by {
        assert(s[i + k] == parts.whole[k]);
    }
    lemma_appended_moved(0, s, i, all, 0, parts.whole.len());
    if parts.pointed {
        assert(s[a as int] == '.');
        assert forall|k: int| a + 1 <= k < b implies is_digit(#[trigger] s[k]) by {
            assert(s[k] == parts.places[k - a - 1]);
        }
        assert(b < s.len() ==> s[b as int] == parts.tail()[0]);
        lemma_run(s, a + 1, b);
        let w = parts.whole.len();
        assert forall|k: int| 0 <= k < parts.places.len() implies s[(a + 1) + k]
            == #[trigger] all[w + k] by {
            assert(s[(a + 1) + k] == parts.places[k]);
        }
        lemma_appended_moved(denoted(parts.whole), s, a + 1, all, w, parts.places.len());
        assert forall|k: int| 0 <= k < w implies parts.whole[0 + k] == #[trigger] all[0 + k] by {}
        lemma_appended_moved(0, parts.whole, 0, all, 0, w);
        lemma_appended_split(all, w, all.len());
    } else {
        assert(all =~= parts.whole);
    }
    match parts.exponent {
        Some((mark, sign, digits)) => {
            let j = b + 1 + sign.len();
            assert(s.len() == j + digits.len());
            assert(s[b as int] == mark);
            assert(s[j as int] == digits[0]);
            assert(is_digit(digits[0]));
            if sign.len() > 0 {
                assert(s[b as int + 1] == sign[0]);
            }
            assert forall|k: int| j <= k < s.len() implies is_digit(#[trigger] s[k]) by {
                assert(s[k] == digits[k - j]);
            }
            lemma_run(s, j, s.len());
            assert forall|k: int| 0 <= k < digits.len() implies s[j + k] == #[trigger] digits[0
                + k] by {}
            lemma_appended_moved(0, s, j, digits, 0, digits.len());
            if sign == seq!['-'] {
                assert(s[b as int + 1] == '-');
            }
        },
        None => {
            assert(b == s.len());
        },
    }
}

proof fn lemma_sign_is_read(parts: Parts)
    requires
        parts.make_a_numeral(),
    ensures
        after_sign(parts.spelled(), 0) == parts.sign.len(),
        minus_at(parts.spelled(), 0) <==> parts.sign == seq!['-'],
{
    let s = parts.spelled();
    let first = parts.whole + parts.fraction();
    assert(first.len() > 0);
    assert(parts.whole.len() > 0 ==> first[0] == parts.whole[0]);
    assert(parts.whole.len() > 0 ==> is_digit(parts.whole[0]));
    assert(parts.whole.len() == 0 ==> first[0] == '.');
    assert(s[parts.sign.len() as int] == first[0]);
    if parts.sign.len() > 0 {
        assert(s[0] == parts.sign[0]);
    }
}

proof fn lemma_numeral_value(s: Seq<char>, digits: nat, e: int)
    requires
        number_from(s, after_sign(s, 0)) == Some((digits, e)),
    ensures
        numeral(s) matches Some(value) && value.pattern() == scaled_by_ten(digits, e)
            && value.negative() == minus_at(s, 0),
{
    let pattern = scaled_by_ten(digits, e);
    assert(pattern <= INFINITE);
}

proof fn lemma_scaled(digits: nat, e: int)
    ensures
        e >= 0 ==> rounded(
            scaled_by_ten(digits, e),
            (digits * pow(10, e as nat) * one()) as nat,
            1,
        ),
        e < 0 ==> rounded(scaled_by_ten(digits, e), digits * one(), pow(10, (-e) as nat) as nat),
{
    if e >= 0 {
        lemma_ten_is_power(e as nat);
        lemma_nearest_is_rounded(digits * ten(e as nat) * one(), 1);
    } else {
        lemma_ten_is_power((-e) as nat);
        lemma_nearest_is_rounded(digits * one(), ten((-e) as nat));
    }
}

/// The digits are ten, each written for its number.
pub proof fn law_digits(c: char, d: nat)
    ensures
        is_digit(c) <==> seq!['0', '1', '2', '3', '4', '5', '6', '7', '8', '9'].contains(c),
        d < 10 ==> decimal(d) == seq![
            seq!['0', '1', '2', '3', '4', '5', '6', '7', '8', '9'][d as int],
        ],
{
    let all = seq!['0', '1', '2', '3', '4', '5', '6', '7', '8', '9'];
    if is_digit(c) {
        assert(all[c as u32 - 48] == c);
    }
    if d < 10 {
        assert(decimal(d) =~= seq![all[d as int]]);
    }
}

/// A digit behind others makes ten times their number, and its own more. No digits at
/// all denote zero.
pub proof fn law_digits_in_a_row(s: Seq<char>, d: nat)
    requires
        d < 10,
    ensures
        denoted(seq![]) == 0,
        denoted(s + decimal(d)) == 10 * denoted(s) + d,
{
    let t = s + decimal(d);
    assert forall|k: int| 0 <= k < s.len() implies t[0 + k] == #[trigger] s[0 + k] by {}
    lemma_appended_moved(0, t, 0, s, 0, s.len());
    assert(t[s.len() as int] == decimal(d)[0]);
}

/// A decimal numeral reads as the number that it spells: its digits, those before the
/// point and those behind it in one row, times the power of ten that the exponent
/// says, less one for each digit behind the point. The number is rounded once, and it
/// is negative exactly where a minus stands in front. A plus changes nothing, nor
/// does the letter that marks the exponent.
pub proof fn law_numerals(parts: Parts)
    requires
        parts.make_a_numeral(),
    ensures
        numeral(parts.spelled()) matches Some(value) && {
            let digits = denoted(parts.whole + parts.places);
            let power = parts.power();
            &&& value.negative() <==> parts.sign == seq!['-']
            &&& power >= 0 ==> rounded(
                value.pattern(),
                (digits * pow(10, power as nat) * one()) as nat,
                1,
            )
            &&& power < 0 ==> rounded(
                value.pattern(),
                digits * one(),
                pow(10, (-power) as nat) as nat,
            )
        },
{
    let digits = denoted(parts.whole + parts.places);
    assert(number_from(parts.spelled(), parts.sign.len()) == Some((digits, parts.power()))) by {
        lemma_parts_are_read(parts);
    }
    lemma_sign_is_read(parts);
    lemma_numeral_value(parts.spelled(), digits, parts.power());
    lemma_scaled(digits, parts.power());
}

proof fn lemma_exponent_parts(
    s: Seq<char>,
    b: nat,
) -> (exponent: Option<(char, Seq<char>, Seq<char>)>)
    requires
        b <= s.len(),
        exponent_from(s, b) is Some,
    ensures
        exponent matches Some((mark, sign, digits)) ==> {
            &&& mark == 'e' || mark == 'E'
            &&& is_sign(sign)
            &&& all_digits(digits)
            &&& digits.len() > 0
            &&& seq![mark] + sign + digits == s.skip(b as int)
        },
        exponent is None ==> b == s.len(),
{
    if b == s.len() {
        None
    } else {
        let j = after_sign(s, b + 1);
        lemma_run_is_digits(s, j);
        let sign = s.subrange(b as int + 1, j as int);
        let digits = s.skip(j as int);
        if j == b + 2 {
            assert(sign =~= seq!['-'] || sign =~= seq!['+']);
        } else {
            assert(sign =~= Seq::<char>::empty());
        }
        assert forall|k: int| 0 <= k < digits.len() implies is_digit(#[trigger] digits[k]) by {
            assert(digits[k] == s[j + k]);
        }
        assert(seq![s[b as int]] + sign + digits =~= s.skip(b as int));
        Some((s[b as int], sign, digits))
    }
}

/// A text that reads as a finite number is a decimal numeral; no other text does.
pub proof fn law_nothing_else_is_a_numeral(s: Seq<char>)
    requires
        numeral(s) matches Some(value) && value.finite(),
    ensures
        exists|parts: Parts| parts.make_a_numeral() && #[trigger] parts.spelled() == s,
{
    let i = after_sign(s, 0);
    let found = number_from(s, i);
    assert(found is Some) by {
        if found is None {
            let sign: int = if minus_at(s, 0) {
                SIGN as int
            } else {
                0
            };
            assert((sign + INFINITE) as u64 % SIGN == INFINITE);
            assert((sign + QUIET_NAN) as u64 % SIGN == QUIET_NAN);
        }
    }
    lemma_number_parts(s, i);
    let parts = choose|parts: Parts|
        parts.make_a_numeral() && parts.sign == Seq::<char>::empty() && #[trigger] parts.spelled()
            == s.skip(i as int);
    let sign = s.take(i as int);
    if i == 1 {
        assert(sign =~= seq!['-'] || sign =~= seq!['+']);
    } else {
        assert(sign =~= Seq::<char>::empty());
    }
    let all = Parts { sign, ..parts };
    assert(all.make_a_numeral());
    assert(all.fraction() == parts.fraction() && all.tail() == parts.tail());
    assert(all.spelled() =~= sign + parts.spelled());
    assert(all.spelled() =~= s);
}

proof fn lemma_number_parts(s: Seq<char>, i: nat)
    requires
        i <= s.len(),
        number_from(s, i) is Some,
    ensures
        exists|parts: Parts|
            parts.make_a_numeral() && parts.sign == Seq::<char>::empty()
                && #[trigger] parts.spelled() == s.skip(i as int),
{
    let a = run_end(s, i);
    lemma_run_is_digits(s, i);
    let pointed = a < s.len() && s[a as int] == '.';
    let b = if pointed {
        run_end(s, a + 1)
    } else {
        a
    };
    if pointed {
        lemma_run_is_digits(s, a + 1);
    }
    let whole = s.subrange(i as int, a as int);
    let places = if pointed {
        s.subrange(a as int + 1, b as int)
    } else {
        seq![]
    };
    assert(exponent_from(s, b) is Some);
    let exponent = lemma_exponent_parts(s, b);
    let parts = Parts { sign: Seq::empty(), whole, pointed, places, exponent };
    assert(all_digits(whole)) by {
        assert forall|k: int| 0 <= k < whole.len() implies is_digit(#[trigger] whole[k]) by {
            assert(whole[k] == s[i + k]);
        }
    }
    assert(all_digits(places)) by {
        assert forall|k: int| 0 <= k < places.len() implies is_digit(#[trigger] places[k]) by {
            assert(places[k] == s[a + 1 + k]);
        }
    }
    assert(parts.make_a_numeral());
    assert(parts.tail() =~= s.skip(b as int));
    assert(parts.fraction() =~= s.subrange(a as int, b as int));
    assert(parts.spelled() =~= s.skip(i as int));
}

proof fn lemma_word_is_no_number(sign: Seq<char>, word: Seq<char>)
    requires
        is_sign(sign),
        word.len() > 0,
        !is_digit(word[0]) && word[0] != '.' && word[0] != '-' && word[0] != '+',
    ensures
        after_sign(sign + word, 0) == sign.len(),
        minus_at(sign + word, 0) <==> sign == seq!['-'],
        number_from(sign + word, sign.len()) is None,
{
    let s = sign + word;
    assert(s[sign.len() as int] == word[0]);
    if sign.len() > 0 {
        assert(s[0] == sign[0]);
    }
    assert(run_end(s, sign.len()) == sign.len());
}

proof fn lemma_word_is_read(sign: Seq<char>, word: Seq<char>, low: Seq<char>, capital: Seq<char>)
    requires
        spells(word, low, capital),
        forall|k: int|
            0 <= k < low.len() ==> small(#[trigger] low[k]) == low[k] && small(capital[k])
                == low[k],
    ensures
        is_word(sign + word, sign.len(), low),
{
    let s = sign + word;
    assert forall|k: int| 0 <= k < low.len() implies small(s[sign.len() + k])
        == #[trigger] low[k] by {
        assert(s[sign.len() + k] == word[k]);
        assert(small(low[k]) == low[k]);
    }
}

/// The word for infinity is read in small and in capital letters, with or without a
/// sign, in full and in short.
pub proof fn law_words_for_infinity(sign: Seq<char>, word: Seq<char>)
    requires
        is_sign(sign),
        spells(word, seq!['i', 'n', 'f'], seq!['I', 'N', 'F']) || spells(
            word,
            seq!['i', 'n', 'f', 'i', 'n', 'i', 't', 'y'],
            seq!['I', 'N', 'F', 'I', 'N', 'I', 'T', 'Y'],
        ),
    ensures
        numeral(sign + word) matches Some(value) && value.infinite() && (value.negative() <==> sign
            == seq!['-']),
{
    let short = seq!['i', 'n', 'f'];
    let full = seq!['i', 'n', 'f', 'i', 'n', 'i', 't', 'y'];
    assert(word[0] == 'i' || word[0] == 'I');
    lemma_word_is_no_number(sign, word);
    assert(is_word(sign + word, sign.len(), "inf"@) || is_word(
        sign + word,
        sign.len(),
        "infinity"@,
    )) by {
        reveal_strlit("inf");
        reveal_strlit("infinity");
        assert("inf"@ =~= short);
        assert("infinity"@ =~= full);
        if spells(word, short, seq!['I', 'N', 'F']) {
            lemma_word_is_read(sign, word, short, seq!['I', 'N', 'F']);
        } else {
            lemma_word_is_read(sign, word, full, seq!['I', 'N', 'F', 'I', 'N', 'I', 'T', 'Y']);
        }
    }
}

/// The word for what is not a number is read in small and in capital letters, with or
/// without a sign.
pub proof fn law_word_for_no_number(sign: Seq<char>, word: Seq<char>)
    requires
        is_sign(sign),
        spells(word, seq!['n', 'a', 'n'], seq!['N', 'A', 'N']),
    ensures
        numeral(sign + word) matches Some(value) && value.nan(),
{
    let s = sign + word;
    let i = sign.len();
    assert(word[0] == 'n' || word[0] == 'N');
    lemma_word_is_no_number(sign, word);
    assert(is_word(s, i, "nan"@)) by {
        reveal_strlit("nan");
        assert("nan"@ =~= seq!['n', 'a', 'n']);
        lemma_word_is_read(sign, word, seq!['n', 'a', 'n'], seq!['N', 'A', 'N']);
    }
    assert(!is_word(s, i, "inf"@) && !is_word(s, i, "infinity"@)) by {
        reveal_strlit("inf");
        reveal_strlit("infinity");
        assert(small(s[i as int + 0]) == 'n') by {
            assert(s[i as int + 0] == word[0]);
        }
        assert("inf"@[0] == 'i');
        assert("infinity"@[0] == 'i');
    }
}

/// A word is spelled with these small letters or, each, its capital.
pub open spec fn spells(word: Seq<char>, small: Seq<char>, capital: Seq<char>) -> bool {
    &&& word.len() == small.len()
    &&& forall|k: int|
        0 <= k < word.len() ==> (#[trigger] word[k] == small[k] || word[k] == capital[k])
}

/// A count that is not finite is written like the number itself.
pub proof fn law_counts_not_finite(value: Binary64)
    requires
        !value.finite(),
    ensures
        count_text(value) == fixed(value, false),
{
}

} // verus!
