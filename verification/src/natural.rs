//! Natural numbers of any size: what comparing decimal fractions exactly takes.
use vstd::prelude::*;

verus! {

/// A natural number, as digits to the base 2^32 with the lowest first.
#[derive(Debug)]
pub struct Natural {
    limbs: Vec<u32>,
}

/// The n-th power of 2^32.
spec fn weight(n: nat) -> nat
    decreases n,
{
    if n == 0 {
        1
    } else {
        0x1_0000_0000 * weight((n - 1) as nat)
    }
}

/// A digit, zero beyond the last.
spec fn limb(s: Seq<u32>, i: int) -> nat {
    if 0 <= i < s.len() {
        s[i] as nat
    } else {
        0
    }
}

/// The number that the lowest n digits make up.
spec fn low(s: Seq<u32>, n: nat) -> nat
    decreases n,
{
    if n == 0 {
        0
    } else {
        low(s, (n - 1) as nat) + limb(s, n - 1) * weight((n - 1) as nat)
    }
}

/// The lowest digits decide alone.
proof fn lemma_low_same(s: Seq<u32>, t: Seq<u32>, n: nat)
    requires
        forall|i: int| 0 <= i < n ==> limb(s, i) == limb(t, i),
    ensures
        low(s, n) == low(t, n),
    decreases n,
{
    if n > 0 {
        lemma_low_same(s, t, (n - 1) as nat);
        assert(limb(s, n - 1) == limb(t, n - 1));
    }
}

/// There is nothing beyond the last digit.
proof fn lemma_low_beyond(s: Seq<u32>, n: nat)
    requires
        n >= s.len(),
    ensures
        low(s, n) == low(s, s.len()),
    decreases n,
{
    if n > s.len() {
        lemma_low_beyond(s, (n - 1) as nat);
        assert(limb(s, n - 1) == 0);
        assert(0 * weight((n - 1) as nat) == 0);
    }
}

/// n digits make up less than the n-th power of the base.
proof fn lemma_low_bound(s: Seq<u32>, n: nat)
    ensures
        low(s, n) < weight(n),
    decreases n,
{
    if n > 0 {
        lemma_low_bound(s, (n - 1) as nat);
        let w = weight((n - 1) as nat);
        let d = limb(s, n - 1);
        assert(d * w + w <= 0x1_0000_0000 * w) by (nonlinear_arith)
            requires
                d < 0x1_0000_0000,
        ;
    }
}

proof fn lemma_push(s: Seq<u32>, x: u32)
    ensures
        low(s.push(x), s.len() + 1) == low(s, s.len()) + x * weight(s.len()),
{
    lemma_low_same(s.push(x), s, s.len());
}

impl View for Natural {
    type V = nat;

    closed spec fn view(&self) -> nat {
        low(self.limbs@, self.limbs@.len())
    }
}

impl Natural {
    /// Zero.
    pub fn zero() -> (r: Natural)
        ensures
            r@ == 0,
    {
        Natural { limbs: Vec::new() }
    }

    /// A machine number.
    pub fn from_u64(n: u64) -> (r: Natural)
        ensures
            r@ == n,
    {
        let lowest: u32 = (n % 0x1_0000_0000) as u32;
        let highest: u32 = (n / 0x1_0000_0000) as u32;
        let mut limbs: Vec<u32> = Vec::new();
        proof {
            lemma_push(limbs@, lowest);
            lemma_push(limbs@.push(lowest), highest);
            assert(weight(0) == 1 && weight(1) == 0x1_0000_0000 * weight(0));
            assert(lowest * 1 == lowest && highest * weight(1) == highest * 0x1_0000_0000);
        }
        limbs.push(lowest);
        limbs.push(highest);
        Natural { limbs }
    }

    /// `self * m + d`.
    pub fn times_plus(&self, m: u32, d: u32) -> (r: Natural)
        requires
            d < m,
        ensures
            r@ == self@ * m + d,
    {
        let mut out: Vec<u32> = Vec::new();
        let mut carry: u32 = d;
        assert(carry * weight(0) == carry && 0 * m == 0) by (nonlinear_arith)
            requires
                weight(0) == 1,
        ;
        for i in 0..self.limbs.len()
            invariant
                carry < m,
                out@.len() == i,
                low(out@, i as nat) + carry * weight(i as nat) == low(self.limbs@, i as nat) * m + d,
        {
            let limb_i: u32 = self.limbs[i];
            assert(limb_i * m + carry < 0x1_0000_0000 * m) by (nonlinear_arith)
                requires
                    limb_i < 0x1_0000_0000,
                    carry < m,
            ;
            assert(0x1_0000_0000 * m <= 0x1_0000_0000 * 0xffff_ffff);
            let x: u64 = limb_i as u64 * m as u64 + carry as u64;
            let digit: u32 = (x % 0x1_0000_0000) as u32;
            let next: u32 = (x / 0x1_0000_0000) as u32;
            proof {
                let w = weight(i as nat);
                lemma_push(out@, digit);
                assert(digit * w + next * (0x1_0000_0000 * w) == x * w) by (nonlinear_arith)
                    requires
                        x == digit + next * 0x1_0000_0000,
                ;
                assert(x * w == limb_i * w * m + carry * w) by (nonlinear_arith)
                    requires
                        x == limb_i * m + carry,
                ;
                let below = low(self.limbs@, i as nat);
                assert((below + limb_i * w) * m == below * m + limb_i * w * m) by (nonlinear_arith);
            }
            out.push(digit);
            carry = next;
        }
        if carry > 0 {
            proof {
                lemma_push(out@, carry);
            }
            out.push(carry);
        }
        Natural { limbs: out }
    }

    /// `self < other`.
    pub fn less(&self, other: &Natural) -> (r: bool)
        ensures
            r == (self@ < other@),
    {
        let n: usize = if self.limbs.len() < other.limbs.len() {
            other.limbs.len()
        } else {
            self.limbs.len()
        };
        let mut r = false;
        for i in 0..n
            invariant
                r == (low(self.limbs@, i as nat) < low(other.limbs@, i as nat)),
        {
            let a: u32 = if i < self.limbs.len() {
                self.limbs[i]
            } else {
                0
            };
            let b: u32 = if i < other.limbs.len() {
                other.limbs[i]
            } else {
                0
            };
            proof {
                let w = weight(i as nat);
                lemma_low_bound(self.limbs@, i as nat);
                lemma_low_bound(other.limbs@, i as nat);
                if a < b {
                    assert(a * w + w <= b * w) by (nonlinear_arith)
                        requires
                            a < b,
                    ;
                } else if b < a {
                    assert(b * w + w <= a * w) by (nonlinear_arith)
                        requires
                            b < a,
                    ;
                }
            }
            if a < b {
                r = true;
            } else if b < a {
                r = false;
            }
        }
        proof {
            lemma_low_beyond(self.limbs@, n as nat);
            lemma_low_beyond(other.limbs@, n as nat);
        }
        r
    }

    /// `self - other`.
    pub fn minus(&self, other: &Natural) -> (r: Natural)
        requires
            other@ <= self@,
        ensures
            r@ == self@ - other@,
    {
        let n: usize = if self.limbs.len() < other.limbs.len() {
            other.limbs.len()
        } else {
            self.limbs.len()
        };
        let mut out: Vec<u32> = Vec::new();
        let mut borrow: u32 = 0;
        for i in 0..n
            invariant
                borrow <= 1,
                out@.len() == i,
                low(out@, i as nat) + low(other.limbs@, i as nat) == low(self.limbs@, i as nat)
                    + borrow * weight(i as nat),
        {
            let a: u32 = if i < self.limbs.len() {
                self.limbs[i]
            } else {
                0
            };
            let b: u32 = if i < other.limbs.len() {
                other.limbs[i]
            } else {
                0
            };
            let take: u64 = b as u64 + borrow as u64;
            let next: u32 = if (a as u64) < take {
                1
            } else {
                0
            };
            let digit: u32 = (a as u64 + 0x1_0000_0000 * next as u64 - take) as u32;
            proof {
                let w = weight(i as nat);
                lemma_push(out@, digit);
                assert(digit * w + b * w + borrow * w == a * w + next * (0x1_0000_0000 * w))
                    by (nonlinear_arith)
                    requires
                        digit + b + borrow == a + 0x1_0000_0000 * next,
                ;
            }
            out.push(digit);
            borrow = next;
        }
        proof {
            lemma_low_beyond(self.limbs@, n as nat);
            lemma_low_beyond(other.limbs@, n as nat);
            lemma_low_bound(out@, n as nat);
            if borrow == 1 {
                assert(1 * weight(n as nat) == weight(n as nat));
            }
        }
        Natural { limbs: out }
    }

    /// Is it zero?
    pub fn is_zero(&self) -> (r: bool)
        ensures
            r == (self@ == 0),
    {
        !Natural::zero().less(self)
    }
}

} // verus!
