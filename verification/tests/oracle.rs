use limbcheck::batch::{Input, Output};
use limbcheck::oracle::{compare, limbs_eq, limbs_to_decimal, limbs_to_hex, oracle, Operation, Reduction};
use limbcheck::reduction::prime;

fn batch(n: usize, width: usize, a: Vec<u32>, b: Vec<u32>) -> Input {
    let m = vec![0; n * width];
    Input { n, width, value0: a, value1: b, value2: m }
}

#[test]
fn addition_wraps_at_single_width() {
    // N=2, w=4: 2 + 3 = 5; (2^128 - 1) + 1 wraps to 0
    let a = vec![2, 0, 0, 0, 0xffffffff, 0xffffffff, 0xffffffff, 0xffffffff];
    let b = vec![3, 0, 0, 0, 1, 0, 0, 0];
    let input = batch(2, 4, a, b);
    let out = oracle(&input, Operation::Add, &Reduction::Truncate);
    assert_eq!(out.values, vec![5, 0, 0, 0, 0, 0, 0, 0]);
}

#[test]
fn addition_with_carry_between_limbs() {
    let a = vec![0xffffffff, 0, 0, 0];
    let b = vec![1, 0, 0, 0];
    let input = batch(1, 4, a, b);
    let out = oracle(&input, Operation::Add, &Reduction::Truncate);
    assert_eq!(out.values, vec![0, 1, 0, 0]);
}

#[test]
fn multiplication_truncates_at_single_width() {
    // 2^64 * 2^64 = 2^128 -> truncates to 0; 3 * 5 = 15 stays
    let a = vec![0, 0, 1, 0, 3, 0, 0, 0];
    let b = vec![0, 0, 1, 0, 5, 0, 0, 0];
    let input = batch(2, 4, a, b);
    let out = oracle(&input, Operation::Mul, &Reduction::Truncate);
    assert_eq!(out.values, vec![0, 0, 0, 0, 15, 0, 0, 0]);
}

#[test]
fn multiplication_mod_prime_small_case() {
    // 7 * 6 = 42 < P, so (42) mod P == 42
    let ctx = prime();
    let a = vec![7, 0, 0, 0];
    let b = vec![6, 0, 0, 0];
    let input = batch(1, 4, a, b);
    let out = oracle(&input, Operation::Mul, &Reduction::Modulus(ctx.p_limbs.clone()));
    assert_eq!(out.values, vec![42, 0, 0, 0]);
}

#[test]
fn multiplication_mod_prime_reduces_large_products() {
    // (P - 1) * (P - 1) mod P == 1, since P - 1 == -1 (mod P)
    let ctx = prime();
    let p_minus_1 = vec![0, 0, 0, 0xCB800000];
    let input = batch(1, 4, p_minus_1.clone(), p_minus_1);
    let out = oracle(&input, Operation::Mul, &Reduction::Modulus(ctx.p_limbs.clone()));
    assert_eq!(out.values, vec![1, 0, 0, 0]);
}

#[test]
fn empty_batch_yields_empty_results_and_no_mismatches() {
    let input = batch(0, 4, vec![], vec![]);
    let out = oracle(&input, Operation::Add, &Reduction::Truncate);
    assert_eq!(out.values.len(), 0);
    let reports = compare(&out, &Output { values: vec![] }, 0, 4);
    assert_eq!(reports.len(), 0);
}

#[test]
fn compare_reports_every_mismatching_index_in_order() {
    let expected = Output { values: vec![5, 0, 7, 0, 9, 0] };
    let observed = Output { values: vec![6, 0, 7, 0, 8, 0] };
    let reports = compare(&expected, &observed, 3, 2);
    assert_eq!(reports.len(), 2);
    assert_eq!(reports[0].index, 0);
    assert_eq!(reports[0].expected, vec![5, 0]);
    assert_eq!(reports[0].observed, vec![6, 0]);
    assert_eq!(reports[0].expected_dec, "5");
    assert_eq!(reports[0].observed_dec, "6");
    assert_eq!(reports[1].index, 2);
    assert_eq!(reports[1].expected_dec, "9");
    assert_eq!(reports[1].observed_dec, "8");
}

#[test]
fn compare_agreeing_outputs_report_nothing() {
    let expected = Output { values: vec![1, 2, 3, 4] };
    let observed = Output { values: vec![1, 2, 3, 4] };
    assert_eq!(compare(&expected, &observed, 2, 2).len(), 0);
}

#[test]
fn renderings_follow_the_value_not_the_limbs() {
    // 2^32 + 10 has limbs [10, 1]; decimal and hex follow the value
    let limbs = vec![10, 1];
    assert_eq!(limbs_to_decimal(&limbs), "4294967306");
    assert_eq!(limbs_to_hex(&limbs), "10000000a");
    assert_eq!(limbs_to_decimal(&vec![42, 0, 0, 0]), "42");
    assert_eq!(limbs_to_hex(&vec![42, 0, 0, 0]), "2a");
}

#[test]
fn limb_equality_is_exact() {
    assert!(limbs_eq(&vec![1, 2, 3], &vec![1, 2, 3]));
    assert!(!limbs_eq(&vec![1, 2, 3], &vec![1, 2, 4]));
    assert!(!limbs_eq(&vec![1, 2], &vec![1, 2, 0]));
    assert!(limbs_eq(&vec![], &vec![]));
}

#[test]
fn oracle_results_align_with_their_indices() {
    // the same entries in permuted order give permuted results
    let a = vec![2, 0, 9, 0, 4, 0];
    let b = vec![3, 0, 1, 0, 5, 0];
    let input = batch(3, 2, a, b);
    let perm_a = vec![4, 0, 2, 0, 9, 0];
    let perm_b = vec![5, 0, 3, 0, 1, 0];
    let permuted = batch(3, 2, perm_a, perm_b);
    let out = oracle(&input, Operation::Mul, &Reduction::Truncate);
    let out_p = oracle(&permuted, Operation::Mul, &Reduction::Truncate);
    // permutation (0 1 2) -> (2 0 1) of the batch permutes results identically
    assert_eq!(&out_p.values[0..2], &out.values[4..6]);
    assert_eq!(&out_p.values[2..4], &out.values[0..2]);
    assert_eq!(&out_p.values[4..6], &out.values[2..4]);
}
