use limbcheck::batch::{generate_from, rand, zero_out, GenPolicy};

#[test]
fn zero_out_fills_every_limb_with_zero() {
    let out = zero_out(3, 4);
    assert_eq!(out.values.len(), 12);
    assert!(out.values.iter().all(|&v| v == 0));
}

#[test]
fn zero_out_empty_batch() {
    let out = zero_out(0, 4);
    assert_eq!(out.values.len(), 0);
}

#[test]
fn generate_clamps_top_limb_and_forces_mask() {
    let rand0 = vec![1, 2, 3, 4];
    let rand1 = vec![5, 6, 7, 8];
    let rand2 = vec![9, 10, 11, 12];
    let policy = GenPolicy { top_limb_limit: Some(3), modulus_mask: Some(vec![7, 8]) };
    let batch = generate_from(2, 2, &rand0, &rand1, &rand2, &policy);
    assert_eq!(batch.n, 2);
    assert_eq!(batch.width, 2);
    // top limb of each entry clamped to at most 3, other limbs kept
    assert_eq!(batch.value0, vec![1, 2, 3, 3]);
    assert_eq!(batch.value1, vec![5, 3, 7, 3]);
    // every mask entry is the shared constant
    assert_eq!(batch.value2, vec![7, 8, 7, 8]);
}

#[test]
fn generate_without_policies_keeps_draws() {
    let rand0 = vec![1, 2];
    let rand1 = vec![3, 4];
    let rand2 = vec![5, 6];
    let policy = GenPolicy { top_limb_limit: None, modulus_mask: None };
    let batch = generate_from(1, 2, &rand0, &rand1, &rand2, &policy);
    assert_eq!(batch.value0, vec![1, 2]);
    assert_eq!(batch.value1, vec![3, 4]);
    assert_eq!(batch.value2, vec![5, 6]);
}

#[test]
fn generate_empty_batch() {
    let empty: Vec<u32> = Vec::new();
    let policy = GenPolicy { top_limb_limit: None, modulus_mask: None };
    let batch = generate_from(0, 4, &empty, &empty, &empty, &policy);
    assert_eq!(batch.n, 0);
    assert_eq!(batch.value0.len(), 0);
    assert_eq!(batch.value1.len(), 0);
    assert_eq!(batch.value2.len(), 0);
}

#[test]
fn default_batch_shape_and_policies() {
    let batch = rand();
    assert_eq!(batch.n, 4000);
    assert_eq!(batch.width, 4);
    assert_eq!(batch.value0.len(), 16000);
    assert_eq!(batch.value1.len(), 16000);
    assert_eq!(batch.value2.len(), 16000);
    for i in 0..4000 {
        // clamped top limbs keep the unreduced product inside double width
        assert!(batch.value0[4 * i + 3] <= 0x000fffff);
        assert!(batch.value1[4 * i + 3] <= 0x000fffff);
        // the shared mask is 2^128 - 2
        assert_eq!(batch.value2[4 * i], 0xfffffffe);
        assert_eq!(batch.value2[4 * i + 1], 0xffffffff);
        assert_eq!(batch.value2[4 * i + 2], 0xffffffff);
        assert_eq!(batch.value2[4 * i + 3], 0xffffffff);
    }
}

#[test]
fn singles_carry_the_operand_buffers() {
    let rand0 = vec![1, 2];
    let rand1 = vec![3, 4];
    let rand2 = vec![5, 6];
    let policy = GenPolicy { top_limb_limit: None, modulus_mask: None };
    let batch = generate_from(1, 2, &rand0, &rand1, &rand2, &policy);
    assert_eq!(batch.single0().value, vec![1, 2]);
    assert_eq!(batch.single1().value, vec![3, 4]);
    assert_eq!(batch.single2().value, vec![5, 6]);
    assert_eq!(batch.single0().to_bytes(), vec![1, 0, 0, 0, 2, 0, 0, 0]);
}
