//! The reference oracle and the comparator: expected results from
//! unbounded-precision arithmetic, and an exhaustive, index-exact
//! mismatch report against what the device produced.

use vstd::prelude::*;
use vstd::arithmetic::power2::{pow2, lemma_pow2};
use vstd::arithmetic::mul::{lemma_mul_inequality, lemma_mul_is_distributive_add_other_way};
use crate::batch::{entry_limbs, get_entry, Input, Output};
use crate::bignum::{
    big_nat, big_add, big_mul, big_rem, big_pow, big_from_u32, big_from_limbs, big_to_decimal,
    big_to_hex, decimal_of, hex_of, encode,
};
use crate::limbs::{
    limbs_to_nat, nat_to_limbs, lemma_limbs_to_nat_bound, lemma_pow2_le,
};

verus! {

/// The arithmetic operation a dispatch tests.
#[derive(Clone, Copy, Debug, PartialEq, Eq, Structural)]
pub enum Operation {
    /// Per-entry addition `A[i] + B[i]`.
    Add,
    /// Per-entry multiplication `A[i] · B[i]`.
    Mul,
}

/// The reduction scheme both oracle and kernel must agree on for a run.
#[derive(Debug)]
pub enum Reduction {
    /// Pure truncation: reduce by 2^(32·width).
    Truncate,
    /// Reduce by the modulus these limbs denote.
    Modulus(Vec<u32>),
}

/// The modulus a reduction scheme reduces by, at batch width `w`.
pub open spec fn reduction_modulus(red: Reduction, w: nat) -> nat {
    match red {
        Reduction::Truncate => pow2(32 * w),
        Reduction::Modulus(m) => limbs_to_nat(m@),
    }
}

/// What a reduction scheme needs to be usable at width `w`: a modulus
/// must be non-zero and fit the width, so every reduced value fits a
/// single-width entry; truncation needs the bit count to be expressible.
pub open spec fn reduction_wf(red: Reduction, w: nat) -> bool {
    match red {
        Reduction::Truncate => 32 * w <= u32::MAX,
        Reduction::Modulus(m) => limbs_to_nat(m@) > 0 && m@.len() <= w,
    }
}

/// The expected value of one entry: the operation applied to the exact
/// operand values, reduced by the modulus.
pub open spec fn oracle_entry_val(a: nat, b: nat, op: Operation, modulus: nat) -> nat {
    match op {
        Operation::Add => (((a + b) as int) % (modulus as int)) as nat,
        Operation::Mul => (((a * b) as int) % (modulus as int)) as nat,
    }
}

/// Entries already in a flat buffer keep their limbs when one more entry
/// is appended, and the new entry occupies exactly the next `w` slots.
proof fn lemma_append_entry(s: Seq<u32>, e: Seq<u32>, i: int, w: nat)
    requires
        i >= 0,
        s.len() == i * w,
        e.len() == w,
    ensures
        entry_limbs(s + e, i, w) == e,
        forall|ii: int| 0 <= ii < i ==> entry_limbs(s + e, ii, w) == entry_limbs(s, ii, w),
{
    assert(entry_limbs(s + e, i, w) =~= e);
    assert forall|ii: int| 0 <= ii < i implies entry_limbs(s + e, ii, w) == entry_limbs(
        s,
        ii,
        w,
    ) by {
        lemma_mul_inequality(ii + 1, i, w as int);
        lemma_mul_is_distributive_add_other_way(w as int, ii, 1);
        assert(entry_limbs(s + e, ii, w) =~= entry_limbs(s, ii, w));
    }
}

/// Computes the expected result of every entry of a batch with unbounded
/// precision: entry `i` of the result is the canonical single-width
/// encoding of `(A[i] op B[i]) mod R`, index-aligned with the operands.
pub fn oracle(batch: &Input, op: Operation, red: &Reduction) -> (r: Output)
    requires
        batch.wf(),
        reduction_wf(*red, batch.width as nat),
    ensures
        r.values@.len() == batch.n * batch.width,
        forall|i: int|
            0 <= i < batch.n ==> entry_limbs(r.values@, i, batch.width as nat) == nat_to_limbs(
                oracle_entry_val(
                    batch.a_val(i),
                    batch.b_val(i),
                    op,
                    reduction_modulus(*red, batch.width as nat),
                ),
                batch.width as nat,
            ),
        forall|i: int|
            0 <= i < batch.n ==> limbs_to_nat(entry_limbs(r.values@, i, batch.width as nat))
                == oracle_entry_val(
                batch.a_val(i),
                batch.b_val(i),
                op,
                reduction_modulus(*red, batch.width as nat),
            ),
{
    let n = batch.n;
    let width = batch.width;
    let ghost w = width as nat;
    let ghost modulus = reduction_modulus(*red, w);

    // The modulus as an unbounded integer, shared by every entry.
    let two = big_from_u32(2);
    let big_modulus = match red {
        Reduction::Truncate => {
            let e = 32 * (width as u32);
            let m = big_pow(&two, e);
            proof {
                lemma_pow2(32 * w);
            }
            m
        },
        Reduction::Modulus(m) => big_from_limbs(m),
    };
    proof {
        assert(big_nat(big_modulus) == modulus);
        vstd::arithmetic::power2::lemma_pow2_pos(32 * w);
        assert(modulus > 0);
        if let Reduction::Modulus(m) = red {
            lemma_limbs_to_nat_bound(m@);
            lemma_pow2_le(32 * m@.len(), 32 * w);
        }
        assert(modulus <= pow2(32 * w));
    }

    let mut values: Vec<u32> = Vec::new();
    let mut i: usize = 0;
    while i < n
        invariant
            i <= n,
            batch.wf(),
            batch.n == n,
            batch.width == width,
            w == width as nat,
            reduction_wf(*red, w),
            modulus == reduction_modulus(*red, w),
            big_nat(big_modulus) == modulus,
            0 < modulus <= pow2(32 * w),
            values@.len() == i * width,
            forall|ii: int|
                0 <= ii < i ==> entry_limbs(values@, ii, w) == nat_to_limbs(
                    oracle_entry_val(batch.a_val(ii), batch.b_val(ii), op, modulus),
                    w,
                ),
        decreases n - i,
    {
        proof {
            lemma_mul_inequality(i as int + 1, n as int, width as int);
        }
        let a_limbs = get_entry(&batch.value0, i, width);
        let b_limbs = get_entry(&batch.value1, i, width);
        let a = big_from_limbs(&a_limbs);
        let b = big_from_limbs(&b_limbs);
        let combined = match op {
            Operation::Add => big_add(&a, &b),
            Operation::Mul => big_mul(&a, &b),
        };
        let reduced = big_rem(&combined, &big_modulus);
        proof {
            assert(big_nat(reduced) == oracle_entry_val(batch.a_val(i as int), batch.b_val(i as int), op, modulus));
            assert(big_nat(reduced) < modulus) by {
                vstd::arithmetic::div_mod::lemma_mod_bound(
                    big_nat(combined) as int,
                    modulus as int,
                );
            }
        }
        let mut entry = match encode(&reduced, width) {
            Ok(v) => v,
            Err(_) => {
                proof {
                    assert(false);
                }
                unreached()
            },
        };
        let ghost values_pre = values@;
        let ghost entry_pre = entry@;
        proof {
            lemma_mul_is_distributive_add_other_way(width as int, i as int, 1);
        }
        values.append(&mut entry);
        proof {
            assert(values@ == values_pre + entry_pre);
            lemma_append_entry(values_pre, entry_pre, i as int, w);
            assert forall|ii: int| 0 <= ii < i + 1 implies entry_limbs(values@, ii, w)
                == nat_to_limbs(
                oracle_entry_val(batch.a_val(ii), batch.b_val(ii), op, modulus),
                w,
            ) by {
                if ii == i {
                    assert(entry_limbs(values@, ii, w) == entry_pre);
                } else {
                    assert(entry_limbs(values@, ii, w) == entry_limbs(values_pre, ii, w));
                }
            }
        }
        i += 1;
    }
    proof {
        assert forall|i2: int| 0 <= i2 < n implies limbs_to_nat(
            entry_limbs(values@, i2, w),
        ) == oracle_entry_val(batch.a_val(i2), batch.b_val(i2), op, modulus) by {
            let val = oracle_entry_val(batch.a_val(i2), batch.b_val(i2), op, modulus);
            assert(val < pow2(32 * w)) by {
                vstd::arithmetic::div_mod::lemma_mod_bound(
                    (match op {
                        Operation::Add => batch.a_val(i2) + batch.b_val(i2),
                        Operation::Mul => batch.a_val(i2) * batch.b_val(i2),
                    }) as int,
                    modulus as int,
                );
            }
            crate::limbs::lemma_limbs_round_trip(val, w);
        }
    }
    Output { values }
}

/// One disagreement between oracle and device: where, what was expected
/// and what was observed, each both as limbs and rendered in decimal and
/// lowercase hexadecimal.
#[derive(Debug)]
pub struct MismatchReport {
    /// The batch index that disagreed.
    pub index: usize,
    /// The limbs the oracle expected there.
    pub expected: Vec<u32>,
    /// The limbs the device produced there.
    pub observed: Vec<u32>,
    /// The expected value in decimal.
    pub expected_dec: String,
    /// The expected value in lowercase hexadecimal.
    pub expected_hex: String,
    /// The observed value in decimal.
    pub observed_dec: String,
    /// The observed value in lowercase hexadecimal.
    pub observed_hex: String,
}

/// Whether two limb arrays hold the same limbs.
pub fn limbs_eq(a: &Vec<u32>, b: &Vec<u32>) -> (r: bool)
    ensures
        r == (a@ == b@),
{
    if a.len() != b.len() {
        return false;
    }
    let mut k: usize = 0;
    while k < a.len()
        invariant
            k <= a@.len(),
            a@.len() == b@.len(),
            forall|t: int| 0 <= t < k ==> a@[t] == b@[t],
        decreases a@.len() - k,
    {
        if a[k] != b[k] {
            return false;
        }
        k += 1;
    }
    proof {
        assert(a@ =~= b@);
    }
    true
}

/// The decimal rendering of the value a limb array denotes.
pub fn limbs_to_decimal(v: &Vec<u32>) -> (r: String)
    ensures
        r@ == decimal_of(limbs_to_nat(v@)),
{
    let b = big_from_limbs(v);
    big_to_decimal(&b)
}

/// The lowercase hexadecimal rendering of the value a limb array denotes.
pub fn limbs_to_hex(v: &Vec<u32>) -> (r: String)
    ensures
        r@ == hex_of(limbs_to_nat(v@)),
{
    let b = big_from_limbs(v);
    big_to_hex(&b)
}

/// Compares the oracle's results against the device's, entry by entry,
/// and reports every index where they differ — never stopping at the
/// first. The reports carry strictly increasing indices, one for exactly
/// each differing entry, with the differing limbs and their renderings.
pub fn compare(expected: &Output, observed: &Output, n: usize, width: usize) -> (r: Vec<
    MismatchReport,
>)
    requires
        expected.values@.len() == n * width,
        observed.values@.len() == n * width,
    ensures
        forall|j: int|
            0 <= j < r@.len() ==> {
                &&& 0 <= r@[j].index < n
                &&& r@[j].expected@ == entry_limbs(
                    expected.values@,
                    r@[j].index as int,
                    width as nat,
                )
                &&& r@[j].observed@ == entry_limbs(
                    observed.values@,
                    r@[j].index as int,
                    width as nat,
                )
                &&& r@[j].expected@ != r@[j].observed@
                &&& r@[j].expected_dec@ == decimal_of(limbs_to_nat(r@[j].expected@))
                &&& r@[j].expected_hex@ == hex_of(limbs_to_nat(r@[j].expected@))
                &&& r@[j].observed_dec@ == decimal_of(limbs_to_nat(r@[j].observed@))
                &&& r@[j].observed_hex@ == hex_of(limbs_to_nat(r@[j].observed@))
            },
        forall|i: int|
            0 <= i < n && entry_limbs(expected.values@, i, width as nat) != entry_limbs(
                observed.values@,
                i,
                width as nat,
            ) ==> exists|j: int| 0 <= j < r@.len() && r@[j].index == i,
        forall|j1: int, j2: int| 0 <= j1 < j2 < r@.len() ==> r@[j1].index < r@[j2].index,
        r@.len() == 0 ==> forall|i: int|
            0 <= i < n ==> entry_limbs(expected.values@, i, width as nat) == entry_limbs(
                observed.values@,
                i,
                width as nat,
            ),
{
    let mut r: Vec<MismatchReport> = Vec::new();
    let mut i: usize = 0;
    while i < n
        invariant
            i <= n,
            expected.values@.len() == n * width,
            observed.values@.len() == n * width,
            forall|j: int|
                0 <= j < r@.len() ==> {
                    &&& 0 <= r@[j].index < i
                    &&& r@[j].expected@ == entry_limbs(
                        expected.values@,
                        r@[j].index as int,
                        width as nat,
                    )
                    &&& r@[j].observed@ == entry_limbs(
                        observed.values@,
                        r@[j].index as int,
                        width as nat,
                    )
                    &&& r@[j].expected@ != r@[j].observed@
                    &&& r@[j].expected_dec@ == decimal_of(limbs_to_nat(r@[j].expected@))
                    &&& r@[j].expected_hex@ == hex_of(limbs_to_nat(r@[j].expected@))
                    &&& r@[j].observed_dec@ == decimal_of(limbs_to_nat(r@[j].observed@))
                    &&& r@[j].observed_hex@ == hex_of(limbs_to_nat(r@[j].observed@))
                },
            forall|i2: int|
                0 <= i2 < i && entry_limbs(expected.values@, i2, width as nat) != entry_limbs(
                    observed.values@,
                    i2,
                    width as nat,
                ) ==> exists|j: int| 0 <= j < r@.len() && r@[j].index == i2,
            forall|j1: int, j2: int| 0 <= j1 < j2 < r@.len() ==> r@[j1].index < r@[j2].index,
        decreases n - i,
    {
        proof {
            lemma_mul_inequality(i as int + 1, n as int, width as int);
        }
        let e = get_entry(&expected.values, i, width);
        let o = get_entry(&observed.values, i, width);
        let ghost r_pre = r@;
        if !limbs_eq(&e, &o) {
            let expected_dec = limbs_to_decimal(&e);
            let expected_hex = limbs_to_hex(&e);
            let observed_dec = limbs_to_decimal(&o);
            let observed_hex = limbs_to_hex(&o);
            r.push(
                MismatchReport {
                    index: i,
                    expected: e,
                    observed: o,
                    expected_dec,
                    expected_hex,
                    observed_dec,
                    observed_hex,
                },
            );
        }
        proof {
            assert forall|i2: int|
                0 <= i2 < i + 1 && entry_limbs(expected.values@, i2, width as nat)
                    != entry_limbs(observed.values@, i2, width as nat) implies exists|j: int|
                0 <= j < r@.len() && r@[j].index == i2 by {
                if i2 < i {
                    let j0 = choose|j: int| 0 <= j < r_pre.len() && r_pre[j].index == i2;
                    assert(r@[j0].index == i2);
                } else {
                    assert(r@[r@.len() - 1].index == i2);
                }
            }
        }
        i += 1;
    }
    r
}

/// Index alignment: the expected value of an entry is a function of that
/// entry's operand values and the shared run configuration alone. Two
/// batches that agree at a pair of indices get identical oracle values
/// there, so permuting a batch permutes the oracle's results identically.
pub proof fn lemma_oracle_index_alignment(
    b1: Input,
    b2: Input,
    i: int,
    j: int,
    op: Operation,
    red: Reduction,
)
    requires
        b1.width == b2.width,
        b1.a_val(i) == b2.a_val(j),
        b1.b_val(i) == b2.b_val(j),
    ensures
        oracle_entry_val(
            b1.a_val(i),
            b1.b_val(i),
            op,
            reduction_modulus(red, b1.width as nat),
        ) == oracle_entry_val(
            b2.a_val(j),
            b2.b_val(j),
            op,
            reduction_modulus(red, b2.width as nat),
        ),
{
}

/// Permutation form of index alignment: when batch `b2` is batch `b1`
/// reordered by `perm`, every oracle value of `b2` is the oracle value of
/// the entry it came from.
pub proof fn lemma_oracle_permutation(
    b1: Input,
    b2: Input,
    perm: Seq<int>,
    op: Operation,
    red: Reduction,
)
    requires
        b1.width == b2.width,
        perm.len() == b2.n,
        forall|i: int|
            0 <= i < b2.n ==> b2.a_val(i) == b1.a_val(#[trigger] perm[i]) && b2.b_val(i)
                == b1.b_val(perm[i]),
    ensures
        forall|i: int|
            0 <= i < b2.n ==> oracle_entry_val(
                b2.a_val(i),
                b2.b_val(i),
                op,
                reduction_modulus(red, b2.width as nat),
            ) == oracle_entry_val(
                b1.a_val(#[trigger] perm[i]),
                b1.b_val(perm[i]),
                op,
                reduction_modulus(red, b1.width as nat),
            ),
{
}

} // verus!
