//! Decimal notation of whole numbers and of binary64 numbers.

use crate::binary64::{lemma_parts, Binary64, SIGN};
use crate::natural::Natural;
use crate::rounding::{half_even, lemma_division_scaled, magnitude, one, INFINITE};
use vstd::arithmetic::power2::lemma2_to64_rest;
use vstd::arithmetic::power2::lemma_pow2_adds;
use vstd::arithmetic::power2::lemma_pow2_pos;
use vstd::arithmetic::power2::lemma_pow2_strictly_increases;
use vstd::arithmetic::power2::pow2;
use vstd::prelude::*;
use vstd::string::StringExecFns;

verus! {

/// The decimal digit that stands for a number below ten.
pub open spec fn digit_char(d: nat) -> char {
    (48 + d) as char
}

/// The decimal notation of a natural number, without leading zeros.
pub open spec fn decimal(n: nat) -> Seq<char>
    decreases n,
{
    if n < 10 {
        seq![digit_char(n)]
    } else {
        decimal(n / 10).push(digit_char(n % 10))
    }
}

/// The decimal notation of an integer.
pub open spec fn signed_decimal(n: int) -> Seq<char> {
    if n < 0 {
        seq!['-'] + decimal((-n) as nat)
    } else {
        decimal(n as nat)
    }
}

/// The decimal notation of a binary64 number, rounded to one place after the
/// point or to none: to the nearer, of two equally near to the one with the
/// even last digit. A negative number keeps its sign even where only zeros
/// are left.
pub open spec fn fixed(f: Binary64, tenths: bool) -> Seq<char> {
    let sign: Seq<char> = if f.negative() {
        seq!['-']
    } else {
        seq![]
    };
    if f.nan() {
        seq!['N', 'a', 'N']
    } else if f.infinite() {
        sign + seq!['i', 'n', 'f']
    } else if tenths {
        let t = half_even(magnitude(f.pattern()) * 10, one());
        sign + decimal(t / 10) + seq!['.', digit_char(t % 10)]
    } else {
        sign + decimal(half_even(magnitude(f.pattern()), one()))
    }
}

/// Whether a finite number is whole at one place after the point: rounded to
/// tenths, it has none.
pub open spec fn counts_as_whole(f: Binary64) -> bool {
    half_even(magnitude(f.pattern()) * 10, one()) % 10 == 0
}

fn digit_text(d: u32) -> (r: &'static str)
    requires
        d < 10,
    ensures
        r@ == seq![digit_char(d as nat)],
{
    proof {
        reveal_strlit("0");
        reveal_strlit("1");
        reveal_strlit("2");
        reveal_strlit("3");
        reveal_strlit("4");
        reveal_strlit("5");
        reveal_strlit("6");
        reveal_strlit("7");
        reveal_strlit("8");
        reveal_strlit("9");
    }
    match d {
        0 => "0",
        1 => "1",
        2 => "2",
        3 => "3",
        4 => "4",
        5 => "5",
        6 => "6",
        7 => "7",
        8 => "8",
        _ => "9",
    }
}

/// The decimal notation of a natural number of any size.
pub(crate) fn natural_text(n: Natural) -> (r: String)
    ensures
        r@ == decimal(n@),
{
    let ghost whole: nat = n@;
    let mut n: Natural = n;
    let mut text: String = String::new();
    let mut more: bool = true;
    while more
        invariant
            more ==> decimal(whole) == decimal(n@) + text@,
            !more ==> decimal(whole) == text@,
        decreases (if more { n@ + 1 } else { 0 }),
    {
        let ghost before: nat = n@;
        let d: u32 = n.div_ten();
        let mut longer: String = digit_text(d).to_owned();
        longer.append(text.as_str());
        proof {
            if before < 10 {
                assert(decimal(before) + text@ =~= longer@);
            } else {
                assert(decimal(before) + text@ =~= decimal(n@) + longer@);
            }
        }
        text = longer;
        more = !n.is_zero();
    }
    text
}

/// The decimal notation of a number of 64 bits.
pub fn decimal_text(n: u64) -> (r: String)
    ensures
        r@ == decimal(n as nat),
{
    natural_text(Natural::from_u64(n))
}

/// The decimal notation of a signed number of 64 bits.
pub fn signed_decimal_text(n: i64) -> (r: String)
    ensures
        r@ == signed_decimal(n as int),
{
    if n < 0 {
        let size: u64 = (-(n as i128)) as u64;
        let mut text: String = "-".to_owned();
        let digits: String = decimal_text(size);
        text.append(digits.as_str());
        proof {
            reveal_strlit("-");
            assert(text@ =~= signed_decimal(n as int));
        }
        text
    } else {
        decimal_text(n as u64)
    }
}

/// The whole number nearest to `factor` times the magnitude of a finite number.
fn scaled_whole(f: &Binary64, factor: u32) -> (r: Natural)
    requires
        f.finite(),
        0 < factor <= 10,
    ensures
        r@ == half_even(magnitude(f.pattern()) * factor as nat, one()),
{
    let (m, e): (u64, u32) = f.parts();
    let ghost p = pow2(e as nat);
    proof {
        lemma_parts(f.pattern());
        lemma_pow2_pos(e as nat);
        assert(m * factor <= m * 10) by (nonlinear_arith)
            requires
                factor <= 10,
        ;
    }
    let x: u64 = m * (factor as u64);
    assert(m * p * factor == x * p) by (nonlinear_arith)
        requires
            x == m * factor,
    ;
    if e >= 1074 {
        let mut r: Natural = Natural::from_u64(x);
        r.shift_left(e - 1074);
        proof {
            let t = pow2((e - 1074) as nat);
            lemma_pow2_adds((e - 1074) as nat, 1074);
            lemma_pow2_pos(1074);
            lemma_division_scaled(x as nat * t, 1, one());
            assert(x * (t * one()) == (x * t) * one() && 1 * one() == one()) by (nonlinear_arith);
        }
        return r;
    }
    let k: u32 = 1074 - e;
    let ghost u = pow2(k as nat);
    proof {
        lemma_pow2_adds(k as nat, e as nat);
        lemma_pow2_pos(k as nat);
        lemma_division_scaled(x as nat, u, p);
    }
    if k >= 58 {
        proof {
            lemma2_to64_rest();
            if k > 58 {
                lemma_pow2_strictly_increases(58, k as nat);
            }
            vstd::arithmetic::div_mod::lemma_basic_div(x as int, u as int);
            vstd::arithmetic::div_mod::lemma_small_mod(x as nat, u);
        }
        return Natural::zero();
    }
    proof {
        lemma2_to64_rest();
        lemma_pow2_strictly_increases(k as nat, 58);
        vstd::bits::lemma_u64_pow2_no_overflow(k as nat);
        vstd::bits::lemma_u64_shl_is_mul(1, k as u64);
    }
    let step: u64 = 1u64 << (k as u64);
    let q: u64 = x / step;
    let rest: u64 = x % step;
    if 2 * rest > step || (2 * rest == step && q % 2 == 1) {
        Natural::from_u64(q + 1)
    } else {
        Natural::from_u64(q)
    }
}

/// Writes a binary64 number with one place after the point, or with none.
pub fn fixed_text(f: &Binary64, tenths: bool) -> (r: String)
    ensures
        r@ == fixed(*f, tenths),
{
    proof {
        reveal_strlit("NaN");
        reveal_strlit("-");
        reveal_strlit("");
        reveal_strlit("inf");
        reveal_strlit(".");
    }
    let b: u64 = f.bits % SIGN;
    if b > INFINITE {
        let text: String = "NaN".to_owned();
        assert(text@ =~= fixed(*f, tenths));
        return text;
    }
    let mut text: String = (if f.bits >= SIGN {
        "-"
    } else {
        ""
    }).to_owned();
    let ghost sign: Seq<char> = if f.negative() {
        seq!['-']
    } else {
        seq![]
    };
    assert(text@ =~= sign);
    if b == INFINITE {
        text.append("inf");
        assert(text@ =~= fixed(*f, tenths));
        return text;
    }
    if tenths {
        let mut t: Natural = scaled_whole(f, 10);
        let ghost all: nat = t@;
        let d: u32 = t.div_ten();
        let whole: String = natural_text(t);
        text.append(whole.as_str());
        text.append(".");
        text.append(digit_text(d));
        assert(text@ =~= fixed(*f, tenths));
    } else {
        let t: Natural = scaled_whole(f, 1);
        let whole: String = natural_text(t);
        text.append(whole.as_str());
        assert(magnitude(f.pattern()) * 1 == magnitude(f.pattern())) by (nonlinear_arith);
        assert(text@ =~= fixed(*f, tenths));
    }
    text
}

/// Whether a finite number has nothing to show after the point.
pub fn is_counted_whole(f: &Binary64) -> (r: bool)
    requires
        f.finite(),
    ensures
        r == counts_as_whole(*f),
{
    let mut tenths: Natural = scaled_whole(f, 10);
    tenths.div_ten() == 0
}

} // verus!
