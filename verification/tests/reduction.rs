use limbcheck::reduction::prime;
use num_bigint::BigUint;

#[test]
fn prime_limbs_match_the_formula() {
    let ctx = prime();
    // P = 1 + 407 * 2^119 = 1 + 0xCB800000 * 2^96
    assert_eq!(ctx.p_limbs, vec![1, 0, 0, 0xCB800000]);
    let p = BigUint::from(1u32) + BigUint::from(407u32) * (BigUint::from(1u32) << 119);
    assert_eq!(BigUint::new(ctx.p_limbs.clone()), p);
}

#[test]
fn reduction_constant_is_floor_of_double_width_over_p() {
    let ctx = prime();
    let p = BigUint::from(1u32) + BigUint::from(407u32) * (BigUint::from(1u32) << 119);
    let r = (BigUint::from(1u32) << 256) / &p;
    assert_eq!(ctx.r_limbs.len(), 8);
    assert_eq!(BigUint::new(ctx.r_limbs.clone()), r);
}

#[test]
fn context_values_agree_with_their_limbs() {
    let ctx = prime();
    let p_digits = {
        let mut d = limbcheck::bignum::decode(&ctx.p_limbs).to_u32_digits();
        d.resize(4, 0);
        d
    };
    assert_eq!(p_digits, ctx.p_limbs);
}
