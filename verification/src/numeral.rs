//! Reading of white space and of decimal numerals in text.

use crate::binary64::{Binary64, SIGN};
use crate::natural::Natural;
use crate::rounding::{excess, nearest, nearest_pattern, one, BINADE, INFINITE};
use vstd::arithmetic::power2::lemma2_to64;
use vstd::arithmetic::power2::lemma2_to64_rest;
use vstd::arithmetic::power2::lemma_pow2_adds;
use vstd::arithmetic::power2::lemma_pow2_pos;
use vstd::arithmetic::power2::lemma_pow2_strictly_increases;
use vstd::arithmetic::power2::lemma_pow2_unfold;
use vstd::arithmetic::power2::pow2;
use vstd::prelude::*;
use vstd::string::StrSliceExecFns;

verus! {

/// The pattern of a quiet "not a number".
pub const QUIET_NAN: u64 = 0x7ff8_0000_0000_0000;

/// The characters with the Unicode property `White_Space`.
pub open spec fn white_space(c: char) -> bool {
    let n = c as u32;
    ||| 0x9 <= n <= 0xd
    ||| n == 0x20
    ||| n == 0x85
    ||| n == 0xa0
    ||| n == 0x1680
    ||| 0x2000 <= n <= 0x200a
    ||| n == 0x2028
    ||| n == 0x2029
    ||| n == 0x202f
    ||| n == 0x205f
    ||| n == 0x3000
}

/// Text without the white space at its end.
pub open spec fn trimmed_end(s: Seq<char>) -> Seq<char>
    decreases s.len(),
{
    if s.len() > 0 && white_space(s.last()) {
        trimmed_end(s.drop_last())
    } else {
        s
    }
}

/// Text without the white space at its start and its end.
pub open spec fn trimmed(s: Seq<char>) -> Seq<char>
    decreases s.len(),
{
    if s.len() > 0 && white_space(s[0]) {
        trimmed(s.drop_first())
    } else {
        trimmed_end(s)
    }
}

pub open spec fn is_digit(c: char) -> bool {
    '0' <= c <= '9'
}

/// The place of the first character from `i` on that is no digit.
pub open spec fn run_end(s: Seq<char>, i: nat) -> nat
    decreases s.len() - i,
{
    if i < s.len() && is_digit(s[i as int]) {
        run_end(s, i + 1)
    } else {
        i
    }
}

/// The number that the digits from `i` to `j`, written behind the digits of
/// `start`, denote.
pub open spec fn appended(start: nat, s: Seq<char>, i: nat, j: nat) -> nat
    decreases j,
{
    if j <= i {
        start
    } else {
        (appended(start, s, i, (j - 1) as nat) * 10 + (s[j - 1] as u32 - 48)) as nat
    }
}

/// Ten to the power of `k`.
pub open spec fn ten(k: nat) -> nat
    decreases k,
{
    if k == 0 {
        1
    } else {
        10 * ten((k - 1) as nat)
    }
}

/// The place behind an optional sign at `i`.
pub open spec fn after_sign(s: Seq<char>, i: nat) -> nat {
    if i < s.len() && (s[i as int] == '-' || s[i as int] == '+') {
        i + 1
    } else {
        i
    }
}

/// Whether a minus sign stands at `i`.
pub open spec fn minus_at(s: Seq<char>, i: nat) -> bool {
    i < s.len() && s[i as int] == '-'
}

/// The exponent written from `i` to the end: none at all, which is zero, or the
/// letter E, an optional sign and digits.
pub open spec fn exponent_from(s: Seq<char>, i: nat) -> Option<int> {
    let j = after_sign(s, i + 1);
    if i >= s.len() {
        Some(0int)
    } else if (s[i as int] == 'e' || s[i as int] == 'E') && j < s.len() && run_end(s, j)
        == s.len() {
        Some(
            if minus_at(s, i + 1) {
                -appended(0, s, j, s.len())
            } else {
                appended(0, s, j, s.len()) as int
            },
        )
    } else {
        None
    }
}

/// The number written from `i` to the end, as its digits and the power of ten
/// that they are multiplied by: digits with at most one point among, before or
/// behind them, at least one digit, and an optional exponent.
pub open spec fn number_from(s: Seq<char>, i: nat) -> Option<(nat, int)> {
    let a = run_end(s, i);
    let pointed = a < s.len() && s[a as int] == '.';
    let b = if pointed {
        run_end(s, a + 1)
    } else {
        a
    };
    let places = if pointed {
        (b - a - 1) as nat
    } else {
        0
    };
    if a - i + places == 0 {
        None
    } else {
        match exponent_from(s, b) {
            Some(e) => Some(
                (
                    if pointed {
                        appended(appended(0, s, i, a), s, a + 1, b)
                    } else {
                        appended(0, s, i, a)
                    },
                    e - places,
                ),
            ),
            None => None,
        }
    }
}

/// A letter of the Latin alphabet in its small form.
pub open spec fn small(c: char) -> char {
    if 'A' <= c <= 'Z' {
        (c as u32 + 32) as char
    } else {
        c
    }
}

/// Whether the text from `i` to the end is the given word, in small or capital
/// letters.
pub open spec fn is_word(s: Seq<char>, i: nat, word: Seq<char>) -> bool {
    &&& i + word.len() == s.len()
    &&& forall|k: int| 0 <= k < word.len() ==> small(s[i + k]) == #[trigger] word[k]
}

/// The pattern of the binary64 number nearest to `digits * 10^e`.
pub open spec fn scaled_by_ten(digits: nat, e: int) -> nat {
    if e >= 0 {
        nearest(digits * ten(e as nat) * one(), 1)
    } else {
        nearest(digits * one(), ten((-e) as nat))
    }
}

/// The binary64 number that a text denotes: an optional sign, then a decimal
/// number or one of the words "inf", "infinity" and "nan".
pub open spec fn numeral(s: Seq<char>) -> Option<Binary64> {
    let i = after_sign(s, 0);
    let sign = if minus_at(s, 0) {
        SIGN
    } else {
        0
    };
    match number_from(s, i) {
        Some((digits, e)) => Some(Binary64 { bits: (sign + scaled_by_ten(digits, e)) as u64 }),
        None => if is_word(s, i, "inf"@) || is_word(s, i, "infinity"@) {
            Some(Binary64 { bits: (sign + INFINITE) as u64 })
        } else if is_word(s, i, "nan"@) {
            Some(Binary64 { bits: (sign + QUIET_NAN) as u64 })
        } else {
            None
        },
    }
}

/// The characters of a text.
pub(crate) fn characters(s: &str) -> (r: Vec<char>)
    ensures
        r@ == s@,
{
    let mut v: Vec<char> = Vec::new();
    for c in it: s.chars()
        invariant
            v@ == it.seq().take(it.index() as int),
            it.seq() == s@,
    {
        v.push(c);
    }
    assert(v@ =~= s@);
    v
}

fn is_white_space(c: char) -> (r: bool)
    ensures
        r == white_space(c),
{
    let n: u32 = c as u32;
    (0x9 <= n && n <= 0xd) || n == 0x20 || n == 0x85 || n == 0xa0 || n == 0x1680 || (0x2000 <= n
        && n <= 0x200a) || n == 0x2028 || n == 0x2029 || n == 0x202f || n == 0x205f || n == 0x3000
}

/// Takes the white space from both ends of a text.
pub fn trim(s: &str) -> (r: &str)
    ensures
        r@ == trimmed(s@),
{
    let v: Vec<char> = characters(s);
    let n: usize = v.len();
    let mut i: usize = 0;
    assert(s@.subrange(0, n as int) =~= s@);
    while i < n && is_white_space(v[i])
        invariant
            i <= n == v@.len(),
            v@ == s@,
            trimmed(s@) == trimmed(s@.subrange(i as int, n as int)),
        decreases n - i,
    {
        assert(s@.subrange(i as int, n as int).drop_first() =~= s@.subrange(i + 1, n as int));
        i = i + 1;
    }
    let mut j: usize = n;
    assert(i < n ==> s@.subrange(i as int, n as int)[0] == v@[i as int]);
    while i < j && is_white_space(v[j - 1])
        invariant
            i <= j <= n == v@.len(),
            v@ == s@,
            trimmed(s@) == trimmed_end(s@.subrange(i as int, j as int)),
        decreases j,
    {
        assert(s@.subrange(i as int, j as int).drop_last() =~= s@.subrange(i as int, j - 1));
        j = j - 1;
    }
    s.substring_char(i, j)
}

proof fn lemma_ten_positive(k: nat)
    ensures
        ten(k) > 0,
    decreases k,
{
    if k > 0 {
        lemma_ten_positive((k - 1) as nat);
    }
}

proof fn lemma_ten_adds(a: nat, b: nat)
    ensures
        ten(a + b) == ten(a) * ten(b),
    decreases a,
{
    if a == 0 {
        assert(1 * ten(b) == ten(b)) by (nonlinear_arith);
    } else {
        lemma_ten_adds((a - 1) as nat, b);
        let t = ten((a - 1) as nat);
        assert(10 * (t * ten(b)) == (10 * t) * ten(b)) by (nonlinear_arith);
    }
}

proof fn lemma_ten_large(k: nat)
    ensures
        ten(k) >= pow2(3 * k),
    decreases k,
{
    lemma2_to64();
    if k > 0 {
        lemma_ten_large((k - 1) as nat);
        lemma_pow2_adds(3, (3 * k - 3) as nat);
    }
}

proof fn lemma_appended_bound(start: nat, s: Seq<char>, i: nat, j: nat)
    requires
        i <= j <= s.len(),
        forall|k: int| i <= k < j ==> is_digit(#[trigger] s[k]),
    ensures
        appended(start, s, i, j) < (start + 1) * ten((j - i) as nat),
    decreases j,
{
    if i < j {
        lemma_appended_bound(start, s, i, (j - 1) as nat);
        let before = appended(start, s, i, (j - 1) as nat);
        let t = ten((j - 1 - i) as nat);
        assert(is_digit(s[j - 1]));
        let d = (s[j - 1] as u32 - 48) as nat;
        assert(before * 10 + d < (start + 1) * (10 * t)) by (nonlinear_arith)
            requires
                before + 1 <= (start + 1) * t,
                d <= 9,
        ;
    } else {
        assert((start + 1) * 1 == start + 1) by (nonlinear_arith);
    }
}

proof fn lemma_excess_at_least(n: nat, d: nat, s: nat)
    requires
        d > 0,
        s > 0,
        n >= 0x20_0000_0000_0000 * d * pow2((s - 1) as nat),
    ensures
        excess(n, d) >= s,
    decreases s,
{
    lemma_pow2_pos((s - 1) as nat);
    let p = pow2((s - 1) as nat);
    assert(0x20_0000_0000_0000 * d * p >= 0x20_0000_0000_0000 * d) by (nonlinear_arith)
        requires
            p >= 1,
    ;
    if s > 1 {
        lemma_pow2_unfold((s - 1) as nat);
        let h = pow2((s - 2) as nat);
        assert(0x20_0000_0000_0000 * d * (2 * h) == 0x20_0000_0000_0000 * (2 * d) * h)
            by (nonlinear_arith);
        lemma_excess_at_least(n, 2 * d, (s - 1) as nat);
    }
}

/// What is far too large for a finite number rounds to infinity.
proof fn lemma_scaled_too_large(digits: nat, e: nat)
    requires
        digits > 0,
        e >= 400,
    ensures
        scaled_by_ten(digits, e as int) == INFINITE,
{
    let n = digits * ten(e) * one();
    lemma_ten_large(e);
    if e > 400 {
        lemma_pow2_strictly_increases(1200, 3 * e);
    }
    lemma_pow2_adds(1200, 1074);
    lemma_pow2_adds(53, 2046);
    lemma_pow2_strictly_increases(2099, 2274);
    lemma2_to64_rest();
    assert(n >= pow2(1200) * pow2(1074)) by (nonlinear_arith)
        requires
            n == digits * ten(e) * one(),
            digits >= 1,
            ten(e) >= pow2(1200),
            one() == pow2(1074),
    ;
    lemma_excess_at_least(n, 1, 2047);
    let s = excess(n, 1);
    assert(s * BINADE >= INFINITE) by (nonlinear_arith)
        requires
            s >= 2047,
            BINADE == 0x10_0000_0000_0000,
            INFINITE == 0x7ff0_0000_0000_0000,
    ;
}

proof fn lemma_nearest_zero(n: nat, d: nat)
    requires
        2 * n < d,
    ensures
        nearest(n, d) == 0,
{
    lemma2_to64();
    assert(d * 1 == d) by (nonlinear_arith);
    vstd::arithmetic::div_mod::lemma_basic_div(n as int, d as int);
    vstd::arithmetic::div_mod::lemma_small_mod(n, d);
}

/// What is far too small for a positive number rounds to zero.
proof fn lemma_scaled_too_small(digits: nat, places: nat, k: nat)
    requires
        digits < ten(places),
        k >= places + 400,
    ensures
        scaled_by_ten(digits, -k) == 0,
{
    let n = digits * one();
    let rest = (k - places) as nat;
    lemma_ten_adds(places, rest);
    lemma_ten_large(rest);
    lemma_ten_positive(places);
    if rest > 400 {
        lemma_pow2_strictly_increases(1200, 3 * rest);
    }
    lemma_pow2_strictly_increases(1075, 1200);
    lemma_pow2_unfold(1075);
    lemma_pow2_pos(1074);
    assert(2 * n < ten(places) * ten(rest)) by (nonlinear_arith)
        requires
            n == digits * one(),
            digits < ten(places),
            2 * one() < ten(rest),
            one() > 0,
    ;
    lemma_nearest_zero(n, ten(k));
}

/// The end of the run of digits that starts at `i`.
fn digits_end(s: &Vec<char>, i: usize) -> (r: usize)
    requires
        i <= s@.len(),
    ensures
        r == run_end(s@, i as nat),
        i <= r <= s@.len(),
        forall|k: int| i <= k < r ==> is_digit(#[trigger] s@[k]),
{
    let mut j: usize = i;
    while j < s.len() && '0' <= s[j] && s[j] <= '9'
        invariant
            i <= j <= s@.len(),
            run_end(s@, i as nat) == run_end(s@, j as nat),
            forall|k: int| i <= k < j ==> is_digit(#[trigger] s@[k]),
        decreases s@.len() - j,
    {
        j = j + 1;
    }
    j
}

/// Appends the digits from `i` to `j` to a number.
fn append_digits(n: &mut Natural, s: &Vec<char>, i: usize, j: usize)
    requires
        i <= j <= s@.len(),
        forall|k: int| i <= k < j ==> is_digit(#[trigger] s@[k]),
    ensures
        final(n)@ == appended(old(n)@, s@, i as nat, j as nat),
{
    let ghost start: nat = n@;
    let mut k: usize = i;
    while k < j
        invariant
            i <= k <= j <= s@.len(),
            forall|k: int| i <= k < j ==> is_digit(#[trigger] s@[k]),
            n@ == appended(start, s@, i as nat, k as nat),
        decreases j - k,
    {
        assert(is_digit(s@[k as int]));
        n.mul_add(10, s[k] as u32 - 48);
        k = k + 1;
    }
}

/// Beyond this an exponent decides by its sign alone.
const FAR: u128 = 1_000_000_000_000_000_000_000_000_000_000;

/// The number that the digits from `i` to the end denote, or a number
/// from `FAR` on that it is not below.
fn bounded_digits(s: &Vec<char>, i: usize) -> (r: u128)
    requires
        i <= s@.len(),
        forall|k: int| i <= k < s@.len() ==> is_digit(#[trigger] s@[k]),
    ensures
        r < 10 * FAR,
        r == appended(0, s@, i as nat, s@.len()) || FAR <= r <= appended(
            0,
            s@,
            i as nat,
            s@.len(),
        ),
{
    let mut r: u128 = 0;
    let mut k: usize = i;
    while k < s.len()
        invariant
            i <= k <= s@.len(),
            forall|k: int| i <= k < s@.len() ==> is_digit(#[trigger] s@[k]),
            r < 10 * FAR,
            r == appended(0, s@, i as nat, k as nat) || FAR <= r <= appended(
                0,
                s@,
                i as nat,
                k as nat,
            ),
        decreases s@.len() - k,
    {
        assert(is_digit(s@[k as int]));
        if r < FAR {
            r = r * 10 + (s[k] as u32 - 48) as u128;
        }
        k = k + 1;
    }
    r
}

/// Computes [`scaled_by_ten`] for an exponent that is not far off.
fn scaled_pattern(digits: Natural, e: i128) -> (r: u64)
    requires
        -0x8000_0000_0000_0000_0000 <= e < 400,
    ensures
        r == scaled_by_ten(digits@, e as int),
{
    let mut n: Natural = digits;
    let mut d: Natural = Natural::from_u64(1);
    if e >= 0 {
        let mut k: i128 = 0;
        assert(digits@ * 1 == digits@) by (nonlinear_arith);
        while k < e
            invariant
                0 <= k <= e,
                n@ == digits@ * ten(k as nat),
            decreases e - k,
        {
            n.mul_add(10, 0);
            k = k + 1;
            let ghost t = ten((k - 1) as nat);
            assert(digits@ * t * 10 == digits@ * (10 * t)) by (nonlinear_arith);
        }
    } else {
        let mut k: i128 = 0;
        while k < -e
            invariant
                0 <= k <= -e <= 0x8000_0000_0000_0000_0000,
                d@ == ten(k as nat),
            decreases -e - k,
        {
            d.mul_add(10, 0);
            k = k + 1;
        }
        proof {
            lemma_ten_positive((-e) as nat);
        }
    }
    n.shift_left(1074);
    nearest_pattern(n, d)
}

/// Whether the text from `i` to the end is the given word.
fn matches_word(s: &Vec<char>, i: usize, word: &str) -> (r: bool)
    requires
        i <= s@.len(),
    ensures
        r == is_word(s@, i as nat, word@),
{
    let w: Vec<char> = characters(word);
    let n: usize = s.len();
    if n - i != w.len() {
        return false;
    }
    let mut k: usize = 0;
    while k < w.len()
        invariant
            i + w@.len() == s@.len() == n,
            w@ == word@,
            k <= w@.len(),
            forall|j: int| 0 <= j < k ==> small(s@[i + j]) == #[trigger] w@[j],
        decreases w@.len() - k,
    {
        let c: char = s[i + k];
        let folded: char = if 'A' <= c && c <= 'Z' {
            (c as u8 + 32) as char
        } else {
            c
        };
        if folded != w[k] {
            assert(small(s@[i + k]) != w@[k as int]);
            return false;
        }
        k = k + 1;
    }
    true
}

/// Reads the number from `i` to the end of the text as a pattern without sign.
fn read_number(s: &Vec<char>, i: usize) -> (r: Option<u64>)
    requires
        i <= s@.len(),
    ensures
        match number_from(s@, i as nat) {
            Some((digits, e)) => r == Some(scaled_by_ten(digits, e) as u64),
            None => r is None,
        },
{
    let a: usize = digits_end(s, i);
    let mut digits: Natural = Natural::zero();
    append_digits(&mut digits, s, i, a);
    let ghost first: nat = digits@;
    let mut b: usize = a;
    let mut places: usize = 0;
    proof {
        lemma_appended_bound(0, s@, i as nat, a as nat);
        lemma_ten_positive((a - i) as nat);
    }
    if a < s.len() && s[a] == '.' {
        b = digits_end(s, a + 1);
        append_digits(&mut digits, s, a + 1, b);
        places = b - a - 1;
        proof {
            lemma_appended_bound(first, s@, (a + 1) as nat, b as nat);
            lemma_ten_adds((a - i) as nat, places as nat);
            let t = ten((a - i) as nat);
            let u = ten(places as nat);
            assert((first + 1) * u <= t * u) by (nonlinear_arith)
                requires
                    first + 1 <= t,
            ;
        }
    }
    let count: usize = a - i + places;
    assert(digits@ < ten(count as nat)) by {
        lemma_ten_adds((a - i) as nat, places as nat);
        assert(1 * ten((a - i) as nat) == ten((a - i) as nat)) by (nonlinear_arith);
    }
    if count == 0 {
        return None;
    }
    let mut e: i128 = 0;
    let ghost mut exact: int = 0;
    if b < s.len() {
        if s[b] != 'e' && s[b] != 'E' {
            return None;
        }
        let mut j: usize = b + 1;
        let mut minus: bool = false;
        if j < s.len() && (s[j] == '-' || s[j] == '+') {
            minus = s[j] == '-';
            j = j + 1;
        }
        if j >= s.len() {
            return None;
        }
        let end: usize = digits_end(s, j);
        if end != s.len() {
            return None;
        }
        let size: u128 = bounded_digits(s, j);
        proof {
            exact = exponent_from(s@, b as nat)->0;
        }
        e = if minus {
            -(size as i128)
        } else {
            size as i128
        };
    }
    assert(exponent_from(s@, b as nat) == Some(exact));
    assert(e == exact || (e >= FAR && exact >= e) || (e <= -FAR && exact <= e));
    let power: i128 = e - places as i128;
    let ghost target: int = exact - places;
    if digits.is_zero() {
        proof {
            if target >= 0 {
                assert(0 * ten(target as nat) * one() == 0) by (nonlinear_arith);
                lemma_nearest_zero(0, 1);
            } else {
                assert(0 * one() == 0) by (nonlinear_arith);
                lemma_ten_positive((-target) as nat);
                lemma_nearest_zero(0, ten((-target) as nat));
            }
        }
        return Some(0);
    }
    if power >= 400 {
        proof {
            lemma_scaled_too_large(digits@, target as nat);
        }
        return Some(INFINITE);
    }
    if power <= -(count as i128) - 400 {
        proof {
            lemma_scaled_too_small(digits@, count as nat, (-target) as nat);
        }
        return Some(0);
    }
    Some(scaled_pattern(digits, power))
}

/// Reads a text as a binary64 number.
pub fn parse_numeral(text: &str) -> (r: Option<Binary64>)
    ensures
        r == numeral(text@),
{
    let s: Vec<char> = characters(text);
    let mut i: usize = 0;
    let mut sign: u64 = 0;
    if s.len() > 0 && (s[0] == '-' || s[0] == '+') {
        if s[0] == '-' {
            sign = SIGN;
        }
        i = 1;
    }
    match read_number(&s, i) {
        Some(pattern) => Some(Binary64 { bits: sign + pattern }),
        None => if matches_word(&s, i, "inf") || matches_word(&s, i, "infinity") {
            Some(Binary64 { bits: sign + INFINITE })
        } else if matches_word(&s, i, "nan") {
            Some(Binary64 { bits: sign + QUIET_NAN })
        } else {
            None
        },
    }
}

} // verus!
