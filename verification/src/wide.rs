//! Full-width arithmetic on 128-bit amounts.
//!
//! Share prices are ratios of two balances, so they are computed as a product of two 128-bit
//! numbers divided by a third. The product needs up to 256 bits.

use vstd::arithmetic::div_mod::lemma_fundamental_div_mod;
use vstd::arithmetic::div_mod::lemma_fundamental_div_mod_converse;
use vstd::arithmetic::mul::group_mul_is_distributive;
use vstd::arithmetic::mul::lemma_mul_is_associative;
use vstd::arithmetic::mul::lemma_mul_is_commutative;
use vstd::arithmetic::power2::lemma2_to64;
use vstd::arithmetic::power2::lemma_pow2_adds;
use vstd::arithmetic::power2::lemma_pow2_strictly_increases;
use vstd::arithmetic::power2::lemma_pow2_unfold;
use vstd::arithmetic::power2::pow2;
use vstd::prelude::*;

verus! {

/// Two to the power of 64, the base of one half of a 128-bit number.
pub const HALF: u128 = 0x1_0000_0000_0000_0000;

/// Two to the power of 127, the value of the top bit of a 128-bit number.
pub const TOP_BIT: u128 = 0x8000_0000_0000_0000_0000_0000_0000_0000;

/// Two to the power of 128.
#[verifier::inline]
pub open spec fn limb() -> nat {
    0x1_0000_0000_0000_0000_0000_0000_0000_0000nat
}

/// A 256-bit unsigned integer, as two limbs of 128 bits.
#[derive(Clone, Copy, Debug)]
pub struct U256 {
    pub hi: u128,
    pub lo: u128,
}

impl View for U256 {
    type V = nat;

    open spec fn view(&self) -> nat {
        self.hi as nat * limb() + self.lo as nat
    }
}

impl U256 {
    /// The full product of two 128-bit numbers. It never overflows.
    pub fn product(a: u128, b: u128) -> (r: U256)
        ensures
            r@ == a * b,
    {
        let a1: u128 = a / HALF;
        let a0: u128 = a % HALF;
        let b1: u128 = b / HALF;
        let b0: u128 = b % HALF;
        proof {
            lemma_half_product(a0 as int, b0 as int);
            lemma_half_product(a0 as int, b1 as int);
            lemma_half_product(a1 as int, b0 as int);
            lemma_half_product(a1 as int, b1 as int);
        }
        let p00: u128 = a0 * b0;
        let p01: u128 = a0 * b1;
        let p10: u128 = a1 * b0;
        let p11: u128 = a1 * b1;
        let mid: u128 = p01 + p00 / HALF;
        let mid2: u128 = p10 + mid % HALF;
        proof {
            let h = 0x1_0000_0000_0000_0000int;
            lemma_split_product(a1 as int, a0 as int, b1 as int, b0 as int, h);
            let top: int = p11 + mid as int / h + mid2 as int / h;
            let low: int = (mid2 as int % h) * h + p00 as int % h;
            assert(a * b == top * (h * h) + low);
            assert(h * h == limb());
            assert(top <= u128::MAX) by {
                lemma_product_bound(a as int, b as int);
                assert(top * limb() <= a * b);
            }
        }
        U256 { hi: p11 + mid / HALF + mid2 / HALF, lo: (mid2 % HALF) * HALF + p00 % HALF }
    }

    /// Adds a 128-bit number. `None` when the sum needs more than 256 bits.
    pub fn checked_add(self, n: u128) -> (r: Option<U256>)
        ensures
            match r {
                Some(sum) => sum@ == self@ + n,
                None => self@ + n >= limb() * limb(),
            },
    {
        if self.lo <= u128::MAX - n {
            Some(U256 { hi: self.hi, lo: self.lo + n })
        } else if self.hi < u128::MAX {
            // The low limb wraps once: lo + n - 2^128.
            Some(U256 { hi: self.hi + 1, lo: self.lo - (u128::MAX - n) - 1 })
        } else {
            None
        }
    }

    /// Divides by a 128-bit number, rounding down.
    pub fn div(self, d: u128) -> (r: U256)
        requires
            d > 0,
        ensures
            r@ == self@ / d as nat,
    {
        let q_hi: u128 = self.hi / d;
        let first: u128 = self.hi % d;
        let mut rem: u128 = first;
        let mut q: u128 = 0;
        let mut rest: u128 = self.lo;
        let mut i: u32 = 0;
        let ghost dividend: int = first * limb() + self.lo;
        proof {
            lemma2_to64();
            lemma_pow2_adds(64, 64);
        }
        // `rest` holds the bits of the low limb that are still to come, shifted to the top.
        while i < 128
            invariant
                i <= 128,
                rem < d,
                q < pow2(i as nat),
                pow2(128) == limb(),
                (q * d + rem) * limb() + rest == dividend * pow2(i as nat),
            decreases 128 - i,
        {
            let ghost q0: int = q as int;
            let ghost rem0: int = rem as int;
            let ghost rest0: int = rest as int;
            proof {
                lemma_pow2_unfold((i + 1) as nat);
                if i + 1 < 128 {
                    lemma_pow2_strictly_increases((i + 1) as nat, 128);
                }
            }
            let bit: u128 = if rest >= TOP_BIT {
                1
            } else {
                0
            };
            rest = (rest % TOP_BIT) * 2;
            let gap: u128 = d - rem;
            if rem >= gap {
                rem = rem - gap + bit;
                q = 2 * q + 1;
            } else if 2 * rem + bit == d {
                rem = 0;
                q = 2 * q + 1;
            } else {
                rem = 2 * rem + bit;
                q = 2 * q;
            }
            proof {
                let p = pow2(i as nat) as int;
                let l = limb() as int;
                assert(rest == 2 * rest0 - bit * l);
                assert(q * d + rem == 2 * (q0 * d + rem0) + bit) by (nonlinear_arith)
                    requires
                        (q == 2 * q0 + 1 && rem == 2 * rem0 + bit - d) || (q == 2 * q0 && rem
                            == 2 * rem0 + bit),
                ;
                assert((q * d + rem) * l + rest == dividend * (2 * p)) by (nonlinear_arith)
                    requires
                        q * d + rem == 2 * (q0 * d + rem0) + bit,
                        rest == 2 * rest0 - bit * l,
                        (q0 * d + rem0) * l + rest0 == dividend * p,
                ;
            }
            i = i + 1;
        }
        proof {
            let l = limb() as int;
            let n = q * d + rem;
            assert(n == dividend) by (nonlinear_arith)
                requires
                    n * l + rest == dividend * l,
                    0 <= rest < l,
            ;
            lemma_fundamental_div_mod(self.hi as int, d as int);
            assert(self.hi * l + self.lo == (q_hi * l + q) * d + rem) by (nonlinear_arith)
                requires
                    self.hi == d * q_hi + first,
                    first * l + self.lo == q * d + rem,
            ;
            lemma_fundamental_div_mod_converse(self@ as int, d as int, q_hi * l + q, rem as int);
        }
        U256 { hi: q_hi, lo: q }
    }

    /// The number as 128 bits. `None` when it needs more.
    pub fn as_u128(self) -> (r: Option<u128>)
        ensures
            match r {
                Some(n) => n == self@,
                None => self@ > u128::MAX,
            },
    {
        if self.hi == 0 {
            Some(self.lo)
        } else {
            None
        }
    }
}

/// `a * b / d`, rounded down. `None` when the quotient needs more than 128 bits.
pub fn mul_div(a: u128, b: u128, d: u128) -> (r: Option<u128>)
    requires
        d > 0,
    ensures
        match r {
            Some(q) => q == a * b / d as int,
            None => a * b / d as int > u128::MAX,
        },
{
    U256::product(a, b).div(d).as_u128()
}

/// `a * b / d`, rounded up. `None` when the quotient needs more than 128 bits.
pub fn mul_div_up(a: u128, b: u128, d: u128) -> (r: Option<u128>)
    requires
        d > 0,
    ensures
        match r {
            Some(q) => q == (a * b + d - 1) / d as int,
            None => (a * b + d - 1) / d as int > u128::MAX,
        },
{
    proof {
        lemma_product_bound(a as int, b as int);
    }
    match U256::product(a, b).checked_add(d - 1) {
        Some(sum) => sum.div(d).as_u128(),
        None => None,
    }
}

/// The product of two numbers in base `h`, by the distributive law.
proof fn lemma_split_product(a1: int, a0: int, b1: int, b0: int, h: int)
    ensures
        (a1 * h + a0) * (b1 * h + b0) == (a1 * b1) * (h * h) + (a0 * b1 + a1 * b0) * h + a0 * b0,
{
    broadcast use group_mul_is_distributive;

    lemma_mul_is_associative(a1, h, b1 * h);
    lemma_mul_is_associative(h, b1, h);
    lemma_mul_is_commutative(h, b1);
    lemma_mul_is_associative(b1, h, h);
    lemma_mul_is_associative(a1, b1, h * h);
    lemma_mul_is_associative(a0, b1, h);
    lemma_mul_is_associative(a1, h, b0);
    lemma_mul_is_commutative(h, b0);
    lemma_mul_is_associative(a1, b0, h);
}

proof fn lemma_half_product(x: int, y: int)
    requires
        0 <= x < HALF,
        0 <= y < HALF,
    ensures
        0 <= x * y <= (HALF - 1) * (HALF - 1),
{
    assert(0 <= x * y <= (HALF - 1) * (HALF - 1)) by (nonlinear_arith)
        requires
            0 <= x < HALF,
            0 <= y < HALF,
    ;
}

proof fn lemma_product_bound(a: int, b: int)
    requires
        0 <= a <= u128::MAX,
        0 <= b <= u128::MAX,
    ensures
        a * b <= u128::MAX * u128::MAX,
{
    assert(a * b <= u128::MAX * u128::MAX) by (nonlinear_arith)
        requires
            0 <= a <= u128::MAX,
            0 <= b <= u128::MAX,
    ;
}

} // verus!
