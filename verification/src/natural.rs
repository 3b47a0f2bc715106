//! Natural numbers of any size, as far as exact binary and decimal
//! conversions need them.

use vstd::prelude::*;

verus! {

/// One more than the largest limb.
pub(crate) const BASE: u64 = 0x1_0000_0000;

/// The weight of limb `i`: `BASE` to the power of `i`.
pub(crate) open spec fn weight(i: nat) -> nat
    decreases i,
{
    if i == 0 {
        1
    } else {
        BASE as nat * weight((i - 1) as nat)
    }
}

/// Limb `i`, where the limbs beyond the last are zero.
pub(crate) open spec fn limb(s: Seq<u32>, i: int) -> nat {
    if 0 <= i < s.len() {
        s[i] as nat
    } else {
        0
    }
}

/// What the lowest `n` limbs amount to.
pub(crate) open spec fn low(s: Seq<u32>, n: nat) -> nat
    decreases n,
{
    if n == 0 {
        0
    } else {
        low(s, (n - 1) as nat) + limb(s, n - 1) * weight((n - 1) as nat)
    }
}

proof fn lemma_weight_positive(i: nat)
    ensures
        weight(i) > 0,
    decreases i,
{
    if i > 0 {
        lemma_weight_positive((i - 1) as nat);
        assert(BASE as nat * weight((i - 1) as nat) > 0) by (nonlinear_arith)
            requires
                weight((i - 1) as nat) > 0,
                BASE > 0,
        ;
    }
}

proof fn lemma_low_bound(s: Seq<u32>, n: nat)
    ensures
        low(s, n) < weight(n),
    decreases n,
{
    if n > 0 {
        let m = (n - 1) as nat;
        lemma_low_bound(s, m);
        let d = limb(s, n - 1);
        assert(low(s, m) + d * weight(m) < BASE as nat * weight(m)) by (nonlinear_arith)
            requires
                low(s, m) < weight(m),
                d + 1 <= BASE as nat,
        ;
    }
}

proof fn lemma_low_agree(s: Seq<u32>, t: Seq<u32>, n: nat)
    requires
        forall|i: int| 0 <= i < n ==> limb(s, i) == limb(t, i),
    ensures
        low(s, n) == low(t, n),
    decreases n,
{
    if n > 0 {
        lemma_low_agree(s, t, (n - 1) as nat);
    }
}

proof fn lemma_low_beyond(s: Seq<u32>, n: nat)
    requires
        n >= s.len(),
    ensures
        low(s, n) == low(s, s.len()),
    decreases n,
{
    if n > s.len() {
        lemma_low_beyond(s, (n - 1) as nat);
        assert(0 * weight((n - 1) as nat) == 0) by (nonlinear_arith);
    }
}

proof fn lemma_low_update(s: Seq<u32>, i: int, x: u32, n: nat)
    requires
        0 <= i < s.len(),
    ensures
        low(s.update(i, x), n) == low(s, n) + (if i < n {
            (x - s[i]) * weight(i as nat)
        } else {
            0
        }),
    decreases n,
{
    if n > 0 {
        lemma_low_update(s, i, x, (n - 1) as nat);
        if i == n - 1 {
            let w = weight(i as nat);
            assert(x * w == s[i] * w + (x - s[i]) * w) by (nonlinear_arith);
        }
    }
}

/// A natural number of any size.
pub(crate) struct Natural {
    limbs: Vec<u32>,
}

impl View for Natural {
    type V = nat;

    closed spec fn view(&self) -> nat {
        low(self.limbs@, self.limbs@.len())
    }
}

impl Natural {
    pub(crate) fn zero() -> (r: Natural)
        ensures
            r@ == 0,
    {
        Natural { limbs: Vec::new() }
    }

    pub(crate) fn from_u64(x: u64) -> (r: Natural)
        ensures
            r@ == x,
    {
        let mut limbs: Vec<u32> = Vec::new();
        limbs.push((x % BASE) as u32);
        limbs.push((x / BASE) as u32);
        proof {
            reveal_with_fuel(low, 3);
            reveal_with_fuel(weight, 2);
            assert(weight(1) == BASE) by (nonlinear_arith)
                requires
                    weight(1) == BASE as nat * 1,
            ;
            let q = x / BASE;
            let r = x % BASE;
            assert(r * 1 + q * weight(1) == x) by (nonlinear_arith)
                requires
                    weight(1) == BASE,
                    x == q * BASE + r,
            ;
        }
        Natural { limbs }
    }

    /// Multiplies by `factor`, then adds `summand`.
    pub(crate) fn mul_add(&mut self, factor: u32, summand: u32)
        ensures
            final(self)@ == old(self)@ * factor + summand,
    {
        let ghost before = self.limbs@;
        let mut carry: u64 = summand as u64;
        let mut i: usize = 0;
        assert(0 * factor == 0 && carry * 1 == carry) by (nonlinear_arith);
        while i < self.limbs.len()
            invariant
                i <= self.limbs@.len(),
                self.limbs@.len() == before.len(),
                carry < BASE,
                forall|j: int| i <= j < before.len() ==> self.limbs@[j] == before[j],
                low(self.limbs@, i as nat) + carry * weight(i as nat) == low(before, i as nat)
                    * factor + summand,
            decreases self.limbs@.len() - i,
        {
            let x: u32 = self.limbs[i];
            assert(x * factor + carry <= 0xffff_ffff * 0xffff_ffff + 0xffff_ffff)
                by (nonlinear_arith)
                requires
                    x <= 0xffff_ffff,
                    factor <= 0xffff_ffff,
                    carry <= 0xffff_ffff,
            ;
            let t: u64 = (x as u64) * (factor as u64) + carry;
            let digit: u32 = (t % BASE) as u32;
            let ghost limbs = self.limbs@;
            self.limbs.set(i, digit);
            proof {
                let w = weight(i as nat);
                lemma_low_agree(limbs, self.limbs@, i as nat);
                let c2 = t / BASE;
                assert(c2 < BASE) by (nonlinear_arith)
                    requires
                        t <= 0xffff_ffff * 0xffff_ffff + 0xffff_ffff,
                        c2 == t / BASE,
                        BASE == 0x1_0000_0000,
                ;
                let below = low(limbs, i as nat);
                let below_before = low(before, i as nat);
                assert(below + digit * w + c2 * (BASE as nat * w) == (below_before + x * w) * factor
                    + summand) by (nonlinear_arith)
                    requires
                        below + carry * w == below_before * factor + summand,
                        x * factor + carry == c2 * BASE + digit,
                ;
            }
            carry = t / BASE;
            i = i + 1;
        }
        if carry > 0 {
            let ghost limbs = self.limbs@;
            self.limbs.push(carry as u32);
            proof {
                lemma_low_agree(limbs, self.limbs@, limbs.len());
            }
        }
    }

    /// Multiplies by two to the power of `n`.
    pub(crate) fn shift_left(&mut self, n: u32)
        ensures
            final(self)@ == old(self)@ * vstd::arithmetic::power2::pow2(n as nat),
    {
        let ghost before = self@;
        let mut i: u32 = 0;
        proof {
            vstd::arithmetic::power2::lemma2_to64();
        }
        while i < n
            invariant
                i <= n,
                self@ == before * vstd::arithmetic::power2::pow2(i as nat),
            decreases n - i,
        {
            self.mul_add(2, 0);
            i = i + 1;
            proof {
                vstd::arithmetic::power2::lemma_pow2_unfold(i as nat);
                let p = vstd::arithmetic::power2::pow2((i - 1) as nat);
                assert(before * p * 2 == before * (2 * p)) by (nonlinear_arith);
            }
        }
    }

    /// Whether this number is below the other.
    pub(crate) fn below(&self, other: &Natural) -> (r: bool)
        ensures
            r == (self@ < other@),
    {
        let mut r: bool = false;
        let mut i: usize = 0;
        while i < self.limbs.len() || i < other.limbs.len()
            invariant
                r == (low(self.limbs@, i as nat) < low(other.limbs@, i as nat)),
                i <= self.limbs@.len() || i <= other.limbs@.len(),
            decreases self.limbs@.len() + other.limbs@.len() - i,
        {
            let x: u32 = if i < self.limbs.len() {
                self.limbs[i]
            } else {
                0
            };
            let y: u32 = if i < other.limbs.len() {
                other.limbs[i]
            } else {
                0
            };
            proof {
                let w = weight(i as nat);
                lemma_low_bound(self.limbs@, i as nat);
                lemma_low_bound(other.limbs@, i as nat);
                let a = low(self.limbs@, i as nat);
                let b = low(other.limbs@, i as nat);
                if x < y {
                    assert(a + x * w < b + y * w) by (nonlinear_arith)
                        requires
                            a < w,
                            x + 1 <= y,
                            b >= 0,
                    ;
                } else if y < x {
                    assert(b + y * w < a + x * w) by (nonlinear_arith)
                        requires
                            b < w,
                            y + 1 <= x,
                            a >= 0,
                    ;
                }
            }
            if x < y {
                r = true;
            } else if y < x {
                r = false;
            }
            i = i + 1;
        }
        proof {
            lemma_low_beyond(self.limbs@, i as nat);
            lemma_low_beyond(other.limbs@, i as nat);
        }
        r
    }

    /// Gives the number at least `n` limbs.
    fn pad(&mut self, n: usize)
        ensures
            final(self)@ == old(self)@,
            final(self).limbs@.len() >= n,
    {
        let ghost value = self@;
        while self.limbs.len() < n
            invariant
                self@ == value,
            decreases n - self.limbs@.len(),
        {
            let ghost limbs = self.limbs@;
            self.limbs.push(0);
            proof {
                lemma_low_agree(limbs, self.limbs@, limbs.len());
                assert(0 * weight(limbs.len()) == 0) by (nonlinear_arith);
            }
        }
    }

    /// Adds the other number to this one.
    pub(crate) fn plus(&mut self, other: &Natural)
        ensures
            final(self)@ == old(self)@ + other@,
    {
        self.pad(other.limbs.len());
        let ghost before = self.limbs@;
        let mut carry: u64 = 0;
        let mut i: usize = 0;
        while i < self.limbs.len()
            invariant
                i <= self.limbs@.len(),
                self.limbs@.len() == before.len(),
                carry <= 1,
                forall|j: int| i <= j < before.len() ==> self.limbs@[j] == before[j],
                low(self.limbs@, i as nat) + carry * weight(i as nat) == low(before, i as nat)
                    + low(other.limbs@, i as nat),
            decreases self.limbs@.len() - i,
        {
            let x: u64 = self.limbs[i] as u64;
            let y: u64 = if i < other.limbs.len() {
                other.limbs[i] as u64
            } else {
                0
            };
            let t: u64 = x + y + carry;
            let digit: u32 = (t % BASE) as u32;
            let ghost limbs = self.limbs@;
            self.limbs.set(i, digit);
            proof {
                let w = weight(i as nat);
                lemma_low_agree(limbs, self.limbs@, i as nat);
                let next = t / BASE;
                let a = low(limbs, i as nat);
                let b = low(other.limbs@, i as nat);
                let c = low(before, i as nat);
                assert(a + digit * w + next * (BASE as nat * w) == c + x * w + (b + y * w))
                    by (nonlinear_arith)
                    requires
                        a + carry * w == c + b,
                        x + y + carry == next * BASE + digit,
                ;
            }
            carry = t / BASE;
            i = i + 1;
        }
        proof {
            lemma_low_beyond(other.limbs@, i as nat);
        }
        if carry > 0 {
            let ghost limbs = self.limbs@;
            self.limbs.push(carry as u32);
            proof {
                lemma_low_agree(limbs, self.limbs@, limbs.len());
            }
        }
    }

    /// Takes the other number away from this one.
    pub(crate) fn sub(&mut self, other: &Natural)
        requires
            other@ <= old(self)@,
        ensures
            final(self)@ == old(self)@ - other@,
    {
        self.pad(other.limbs.len());
        let ghost before = self.limbs@;
        let mut borrow: u64 = 0;
        let mut i: usize = 0;
        while i < self.limbs.len()
            invariant
                i <= self.limbs@.len(),
                self.limbs@.len() == before.len(),
                borrow <= 1,
                forall|j: int| i <= j < before.len() ==> self.limbs@[j] == before[j],
                low(self.limbs@, i as nat) + low(other.limbs@, i as nat) == low(before, i as nat)
                    + borrow * weight(i as nat),
            decreases self.limbs@.len() - i,
        {
            let x: u64 = self.limbs[i] as u64;
            let y: u64 = if i < other.limbs.len() {
                other.limbs[i] as u64
            } else {
                0
            };
            let t: u64 = x + BASE - y - borrow;
            let next: u64 = if t < BASE {
                1
            } else {
                0
            };
            let digit: u32 = (if t < BASE {
                t
            } else {
                t - BASE
            }) as u32;
            let ghost limbs = self.limbs@;
            self.limbs.set(i, digit);
            proof {
                let w = weight(i as nat);
                lemma_low_agree(limbs, self.limbs@, i as nat);
                let a = low(limbs, i as nat);
                let b = low(other.limbs@, i as nat);
                let c = low(before, i as nat);
                assert(a + digit * w + (b + y * w) == c + x * w + next * (BASE as nat * w))
                    by (nonlinear_arith)
                    requires
                        a + b == c + borrow * w,
                        digit + y + borrow == x + next * BASE,
                ;
            }
            borrow = next;
            i = i + 1;
        }
        proof {
            lemma_low_beyond(other.limbs@, i as nat);
            lemma_low_bound(self.limbs@, i as nat);
            if borrow == 1 {
                assert(false);
            }
        }
    }

    /// Divides by ten, and returns the remainder.
    pub(crate) fn div_ten(&mut self) -> (r: u32)
        ensures
            final(self)@ == old(self)@ / 10,
            r == old(self)@ % 10,
    {
        let ghost before = self.limbs@;
        let n: usize = self.limbs.len();
        let mut rem: u64 = 0;
        let mut i: usize = n;
        assert(0 * weight(n as nat) == 0) by (nonlinear_arith);
        while i > 0
            invariant
                i <= n == self.limbs@.len() == before.len(),
                rem < 10,
                forall|j: int| 0 <= j < i ==> self.limbs@[j] == before[j],
                low(before, n as nat) + 10 * low(before, i as nat) == low(before, i as nat) + 10
                    * low(self.limbs@, n as nat) + rem * weight(i as nat),
            decreases i,
        {
            i = i - 1;
            let x: u32 = self.limbs[i];
            let t: u64 = rem * BASE + x as u64;
            let q: u32 = (t / 10) as u32;
            let ghost limbs = self.limbs@;
            self.limbs.set(i, q);
            proof {
                let w = weight(i as nat);
                lemma_low_update(limbs, i as int, q, n as nat);
                let v = low(before, n as nat);
                let a = low(before, i as nat);
                let b = low(limbs, n as nat);
                let r2 = t % 10;
                assert(v + 10 * a == a + 10 * (b + (q - x) * w) + r2 * w) by (nonlinear_arith)
                    requires
                        v + 10 * (a + x * w) == a + x * w + 10 * b + rem * (BASE as nat * w),
                        rem * BASE + x == 10 * q + r2,
                ;
            }
            rem = t % 10;
        }
        assert(rem * 1 == rem) by (nonlinear_arith);
        rem as u32
    }

    pub(crate) fn is_zero(&self) -> (r: bool)
        ensures
            r == (self@ == 0),
    {
        let zero: Natural = Natural::zero();
        !zero.below(self)
    }
}

} // verus!
