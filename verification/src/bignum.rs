//! Unbounded-precision integers for the reference oracle, held behind a
//! small trusted boundary around `num_bigint::BigUint`, together with the
//! verified limb-array encode/decode of the codec contract.

use vstd::prelude::*;
use vstd::arithmetic::power2::pow2;
use vstd::arithmetic::power::pow;
use num_bigint::BigUint;
use crate::RunError;
use crate::limbs::{
    limbs_to_nat, nat_to_limbs, lemma_limbs_to_nat_bound, lemma_limbs_to_nat_lower_bound,
    lemma_limbs_to_nat_push, lemma_limbs_canonical, lemma_pow2_le,
};

verus! {

#[verifier::external_type_specification]
#[verifier::external_body]
pub struct ExBigUint(BigUint);

// The natural number a `BigUint` holds; every trusted contract below
// speaks of a `BigUint` only through this model.
pub uninterp spec fn big_nat(b: BigUint) -> nat;

// The decimal rendering of a number: what `BigUint`'s decimal formatter
// returns, a function of the value alone.
pub uninterp spec fn decimal_of(v: nat) -> Seq<char>;

// The lowercase hexadecimal rendering of a number: what
// `BigUint::to_str_radix(16)` returns, a function of the value alone.
pub uninterp spec fn hex_of(v: nat) -> Seq<char>;

/// Relies on `BigUint::new`: the argument is read as base-2^32 digits
/// ordered least significant first.
#[verifier::external_body]
pub(crate) fn big_from_limbs(v: &Vec<u32>) -> (r: BigUint)
    ensures
        big_nat(r) == limbs_to_nat(v@),
{
    BigUint::new(v.clone())
}

/// Relies on `From<u32>` for `BigUint`: the value is kept exactly.
#[verifier::external_body]
pub(crate) fn big_from_u32(x: u32) -> (r: BigUint)
    ensures
        big_nat(r) == x,
{
    BigUint::from(x)
}

/// Relies on `BigUint::to_u32_digits`: little-endian base-2^32 digits with
/// no leading zero digit, and an empty vector for zero.
#[verifier::external_body]
pub(crate) fn big_to_limbs(b: &BigUint) -> (r: Vec<u32>)
    ensures
        limbs_to_nat(r@) == big_nat(*b),
        r@.len() > 0 ==> r@[r@.len() - 1] != 0,
        big_nat(*b) == 0 ==> r@.len() == 0,
{
    b.to_u32_digits()
}

/// Relies on `Add` for `BigUint`: exact unbounded addition.
#[verifier::external_body]
pub(crate) fn big_add(a: &BigUint, b: &BigUint) -> (r: BigUint)
    ensures
        big_nat(r) == big_nat(*a) + big_nat(*b),
{
    a + b
}

/// Relies on `Mul` for `BigUint`: exact unbounded multiplication.
#[verifier::external_body]
pub(crate) fn big_mul(a: &BigUint, b: &BigUint) -> (r: BigUint)
    ensures
        big_nat(r) == big_nat(*a) * big_nat(*b),
{
    a * b
}

/// Relies on `Div` for `BigUint`: floor division. The divisor must not be
/// zero, on which the outside code panics.
#[verifier::external_body]
pub(crate) fn big_div(a: &BigUint, d: &BigUint) -> (r: BigUint)
    requires
        big_nat(*d) != 0,
    ensures
        big_nat(r) == big_nat(*a) / big_nat(*d),
{
    a / d
}

/// Relies on `Rem` for `BigUint`: the remainder of floor division. The
/// divisor must not be zero, on which the outside code panics.
#[verifier::external_body]
pub(crate) fn big_rem(a: &BigUint, m: &BigUint) -> (r: BigUint)
    requires
        big_nat(*m) != 0,
    ensures
        big_nat(r) == big_nat(*a) % big_nat(*m),
{
    a % m
}

/// Relies on `BigUint::pow`: exact unbounded exponentiation.
#[verifier::external_body]
pub(crate) fn big_pow(b: &BigUint, e: u32) -> (r: BigUint)
    ensures
        big_nat(r) == pow(big_nat(*b) as int, e as nat),
{
    b.pow(e)
}

/// Relies on the decimal `Display` formatter of `BigUint`: decimal digits
/// of the value, without leading zeros.
#[verifier::external_body]
pub(crate) fn big_to_decimal(b: &BigUint) -> (r: String)
    ensures
        r@ == decimal_of(big_nat(*b)),
{
    format!("{}", b)
}

/// Relies on `BigUint::to_str_radix` with radix 16: lowercase hexadecimal
/// digits of the value, without leading zeros.
#[verifier::external_body]
pub(crate) fn big_to_hex(b: &BigUint) -> (r: String)
    ensures
        r@ == hex_of(big_nat(*b)),
{
    b.to_str_radix(16)
}

/// Decodes a limb array into the exact number it denotes. Total: every
/// limb array denotes one number.
pub fn decode(v: &Vec<u32>) -> (r: BigUint)
    ensures
        big_nat(r) == limbs_to_nat(v@),
{
    big_from_limbs(v)
}

/// Encodes a number into exactly `width` limbs, zero-padding the unused
/// high limbs. Returns `EncodingOverflow` precisely when the value does
/// not fit, that is when `big_nat(b) >= 2^(32·width)`.
pub fn encode(b: &BigUint, width: usize) -> (r: Result<Vec<u32>, RunError>)
    ensures
        match r {
            Ok(v) => {
                &&& big_nat(*b) < pow2(32 * width as nat)
                &&& v@.len() == width
                &&& limbs_to_nat(v@) == big_nat(*b)
                &&& v@ == nat_to_limbs(big_nat(*b), width as nat)
            },
            Err(e) => {
                &&& e == RunError::EncodingOverflow
                &&& big_nat(*b) >= pow2(32 * width as nat)
            },
        },
{
    let mut digits = big_to_limbs(b);
    if digits.len() > width {
        proof {
            lemma_limbs_to_nat_lower_bound(digits@);
            lemma_pow2_le(32 * width as nat, 32 * (digits@.len() - 1) as nat);
        }
        Err(RunError::EncodingOverflow)
    } else {
        proof {
            lemma_limbs_to_nat_bound(digits@);
            lemma_pow2_le(32 * digits@.len(), 32 * width as nat);
        }
        while digits.len() < width
            invariant
                digits@.len() <= width,
                limbs_to_nat(digits@) == big_nat(*b),
            decreases width - digits@.len(),
        {
            proof {
                lemma_limbs_to_nat_push(digits@, 0);
            }
            digits.push(0);
        }
        proof {
            lemma_limbs_canonical(digits@);
        }
        Ok(digits)
    }
}

} // verus!
