//! Exact rational arithmetic for commission and fee computation.
//!
//! A [`Fraction`] is a rational in `[0, 1]`. Multiplying it by a 128-bit
//! amount always floors, and is computed through a widened intermediate so
//! that `num * amount` never overflows, which is proved rather than assumed:
//! the amount is split at `2^64` and the two halves are combined with
//! exact division lemmas.

use vstd::arithmetic::div_mod::{
    lemma_div_is_ordered, lemma_div_multiples_vanish, lemma_div_pos_is_pos,
    lemma_fundamental_div_mod, lemma_hoist_over_denominator,
};
use vstd::arithmetic::mul::{lemma_mul_inequality, lemma_mul_upper_bound};
use vstd::prelude::*;

use crate::Balance;

verus! {

/// One unit past the largest value of the low 64-bit half of a `u128`.
pub const SPLIT: u128 = 0x1_0000_0000_0000_0000;

/// A rational number `num / denom` in `[0, 1]`.
#[derive(Clone, Copy, Debug, PartialEq, Eq, Structural)]
pub struct Fraction {
    pub num: u32,
    pub denom: u32,
}

impl Fraction {
    /// The invariant every fraction built by [`Fraction::new`] has.
    pub open spec fn wf(&self) -> bool {
        self.num <= self.denom && self.denom > 0
    }

    pub open spec fn spec_num(&self) -> u32 {
        self.num
    }

    pub open spec fn spec_denom(&self) -> u32 {
        self.denom
    }

    /// What multiplying by this fraction means: `floor(num * x / denom)`.
    pub open spec fn spec_mul_int(&self, x: int) -> int {
        (self.num as int * x) / (self.denom as int)
    }

    /// [`Fraction::spec_mul_int`] on a balance.
    pub open spec fn spec_mul(&self, balance: Balance) -> int {
        self.spec_mul_int(balance as int)
    }

    pub fn new(num: u32, denom: u32) -> (r: Fraction)
        requires
            num <= denom,
            0 < denom,
        ensures
            r.spec_num() == num,
            r.spec_denom() == denom,
            r.wf(),
    {
        Fraction { num, denom }
    }

    pub fn num(&self) -> (r: u32)
        ensures
            r == self.spec_num(),
    {
        self.num
    }

    pub fn denom(&self) -> (r: u32)
        ensures
            r == self.spec_denom(),
    {
        self.denom
    }

    /// Floor of `self * balance`, computed exactly: the amount is split at
    /// `2^64` so every intermediate product fits in a `u128`.
    pub fn mul(&self, balance: Balance) -> (r: Balance)
        requires
            self.wf(),
        ensures
            r as int == self.spec_mul(balance),
            r <= balance,
    {
        proof {
            lemma_fraction_mul_bounds(*self, balance as int);
        }
        let num = self.num as u128;
        let denom = self.denom as u128;
        let hi = balance / SPLIT;
        let lo = balance % SPLIT;
        proof {
            lemma_mul_upper_bound(num as int, u32::MAX as int, hi as int, (SPLIT - 1) as int);
            lemma_mul_upper_bound(num as int, u32::MAX as int, lo as int, (SPLIT - 1) as int);
        }
        let p_hi = num * hi;
        let q1 = p_hi / denom;
        let r1 = p_hi % denom;
        let s = r1 * SPLIT + num * lo;
        let q2 = s / denom;
        proof {
            lemma_fundamental_div_mod(balance as int, SPLIT as int);
            lemma_fundamental_div_mod(p_hi as int, denom as int);
            assert(num as int * balance as int
                == denom as int * (q1 as int * SPLIT as int) + s as int) by (nonlinear_arith)
                requires
                    balance as int == SPLIT as int * hi as int + lo as int,
                    p_hi as int == num as int * hi as int,
                    p_hi as int == denom as int * q1 as int + r1 as int,
                    s as int == r1 as int * SPLIT as int + num as int * lo as int;
            lemma_hoist_over_denominator(s as int, q1 as int * SPLIT as int, denom as nat);
            assert(q1 as int * SPLIT as int + q2 as int == self.spec_mul(balance));
        }
        q1 * SPLIT + q2
    }
}

/// The floored product of a fraction in `[0, 1]` and a nonnegative value
/// lies between zero and the value itself.
pub proof fn lemma_fraction_mul_bounds(f: Fraction, x: int)
    requires
        f.wf(),
        0 <= x,
    ensures
        0 <= f.spec_mul_int(x) <= x,
{
    lemma_div_pos_is_pos(f.num as int * x, f.denom as int);
    lemma_mul_inequality(f.num as int, f.denom as int, x);
    lemma_div_is_ordered(f.num as int * x, f.denom as int * x, f.denom as int);
    lemma_div_multiples_vanish(x, f.denom as int);
}

} // verus!
