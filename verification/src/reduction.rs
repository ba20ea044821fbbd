//! The reduction context: the prime modulus of the modular-multiplication
//! test and the auxiliary constant derived from it, computed once per run.

use vstd::prelude::*;
use vstd::arithmetic::power2::{pow2, lemma_pow2, lemma_pow2_adds, lemma_pow2_pos};
use vstd::arithmetic::mul::{lemma_mul_inequality, lemma_mul_is_commutative};
use num_bigint::BigUint;
use crate::bignum::{
    big_nat, big_from_u32, big_add, big_mul, big_div, big_pow, encode,
};
use crate::limbs::{limbs_to_nat, nat_to_limbs, lemma_pow2_le};

verus! {

/// The prime modulus of the modular-multiplication test:
/// P = 1 + 407 · 2^119.
pub open spec fn prime_p() -> nat {
    (1 + 407 * pow2(119)) as nat
}

/// The auxiliary reduction constant the kernel's reduction scheme is built
/// on: floor(2^256 / P), where 256 = 2 · 32 · 4 is the double width in
/// bits.
pub open spec fn reduction_r() -> nat {
    pow2(256) / prime_p()
}

/// The constants both the oracle and, by contract, the device kernel
/// reduce with: the modulus `P`, the constant `R = floor(2^256 / P)`, and
/// their limb encodings at single width (4 limbs) and double width
/// (8 limbs). Computed once per run, immutable thereafter.
pub struct ReductionContext {
    /// The modulus `P` itself.
    pub p: BigUint,
    /// The auxiliary constant `R`.
    pub r: BigUint,
    /// `P` as exactly 4 limbs.
    pub p_limbs: Vec<u32>,
    /// `R` as exactly 8 limbs.
    pub r_limbs: Vec<u32>,
}

impl ReductionContext {
    /// Every field holds its named constant, the limb encodings at their
    /// exact widths.
    pub open spec fn wf(self) -> bool {
        &&& big_nat(self.p) == prime_p()
        &&& big_nat(self.r) == reduction_r()
        &&& self.p_limbs@.len() == 4
        &&& limbs_to_nat(self.p_limbs@) == prime_p()
        &&& self.p_limbs@ == nat_to_limbs(prime_p(), 4)
        &&& self.r_limbs@.len() == 8
        &&& limbs_to_nat(self.r_limbs@) == reduction_r()
        &&& self.r_limbs@ == nat_to_limbs(reduction_r(), 8)
    }
}

/// P is strictly between 1 and 2^128, so it fits single width and every
/// reduced value fits too.
pub proof fn lemma_prime_bounds()
    ensures
        1 < prime_p(),
        prime_p() < pow2(128),
{
    lemma_pow2_pos(119);
    lemma_pow2_adds(9, 119);
    vstd::arithmetic::power2::lemma2_to64();
    assert(pow2(9) == 512);
    lemma_mul_inequality(407, 511, pow2(119) as int);
    lemma_mul_is_commutative(511, pow2(119) as int);
    lemma_mul_is_commutative(407, pow2(119) as int);
    assert(512 * pow2(119) == pow2(128));
    assert(511 * pow2(119) == 512 * pow2(119) - pow2(119)) by (nonlinear_arith);
    assert(407 * pow2(119) <= pow2(128) - pow2(119));
    assert(pow2(119) >= 2) by {
        vstd::arithmetic::power2::lemma_pow2_strictly_increases(1, 119);
    }
}

/// R is below 2^256, so it fits double width.
pub proof fn lemma_reduction_r_bound()
    ensures
        reduction_r() < pow2(256),
{
    lemma_prime_bounds();
    lemma_pow2_pos(256);
    vstd::arithmetic::div_mod::lemma_div_decreases(pow2(256) as int, prime_p() as int);
}

/// Computes the reduction context: P = 1 + 407·2^119 by unbounded
/// arithmetic, R = floor(2^256 / P), and their limb encodings.
pub fn prime() -> (ctx: ReductionContext)
    ensures
        ctx.wf(),
{
    let one = big_from_u32(1);
    let two = big_from_u32(2);
    let c407 = big_from_u32(407);
    let pow119 = big_pow(&two, 119);
    let prod = big_mul(&c407, &pow119);
    let p = big_add(&one, &prod);
    proof {
        lemma_pow2(119);
        assert(big_nat(p) == prime_p());
        lemma_prime_bounds();
    }
    let pow256 = big_pow(&two, 256);
    proof {
        lemma_pow2(256);
    }
    let r = big_div(&pow256, &p);
    proof {
        assert(big_nat(r) == reduction_r());
        lemma_reduction_r_bound();
        lemma_pow2_le(128, 32 * 4);
    }
    let p_limbs = match encode(&p, 4) {
        Ok(v) => v,
        Err(_) => {
            proof {
                assert(false);
            }
            unreached()
        },
    };
    proof {
        lemma_pow2_le(256, 32 * 8);
    }
    let r_limbs = match encode(&r, 8) {
        Ok(v) => v,
        Err(_) => {
            proof {
                assert(false);
            }
            unreached()
        },
    };
    ReductionContext { p, r, p_limbs, r_limbs }
}

} // verus!
