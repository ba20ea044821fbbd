//! The batch generator: operand batches as flat limb buffers, and the
//! per-run policies that shape them.

use vstd::prelude::*;
use vstd::arithmetic::div_mod::{lemma_mod_multiples_vanish, lemma_small_mod};
use vstd::arithmetic::mul::{lemma_mul_inequality, lemma_mul_is_distributive_add_other_way};
use vstd::arithmetic::power2::pow2;
use crate::limbs::{limbs_to_nat, limbs_to_bytes, limbs_to_bytes_spec, lemma_limbs_to_nat_top_bound};

verus! {

/// One batch of `n` operand triples of `width` limbs each, flattened
/// row-major: entry `i` of an operand occupies indices
/// `i·width .. (i+1)·width`, with no padding between limbs or entries.
#[derive(Debug)]
pub struct Input {
    /// Batch size: the number of independent test cases.
    pub n: usize,
    /// Limbs per operand; fixed for the whole batch.
    pub width: usize,
    /// Operand `A`, all entries flattened.
    pub value0: Vec<u32>,
    /// Operand `B`, all entries flattened.
    pub value1: Vec<u32>,
    /// The modulus/auxiliary operand `M`, all entries flattened.
    pub value2: Vec<u32>,
}

/// One operand array of a batch on its own, as handed to buffer
/// flattening: the same row-major limb layout.
#[derive(Debug)]
pub struct InputSingle {
    /// The flattened limbs of one operand across the whole batch.
    pub value: Vec<u32>,
}

/// One result array: `n` entries of `width` limbs, index-aligned with the
/// operand batch that produced it.
#[derive(Debug)]
pub struct Output {
    /// The flattened limbs of every result entry.
    pub values: Vec<u32>,
}

/// The limbs of entry `i` in a flat operand or result buffer.
pub open spec fn entry_limbs(s: Seq<u32>, i: int, w: nat) -> Seq<u32> {
    s.subrange(i * w, i * w + w)
}

impl Input {
    /// The three flat buffers all hold exactly `n` entries of `width`
    /// limbs: index `i` means the same test case in each.
    pub open spec fn wf(self) -> bool {
        &&& self.value0@.len() == self.n * self.width
        &&& self.value1@.len() == self.n * self.width
        &&& self.value2@.len() == self.n * self.width
    }

    /// The number entry `i` of operand `A` denotes.
    pub open spec fn a_val(self, i: int) -> nat {
        limbs_to_nat(entry_limbs(self.value0@, i, self.width as nat))
    }

    /// The number entry `i` of operand `B` denotes.
    pub open spec fn b_val(self, i: int) -> nat {
        limbs_to_nat(entry_limbs(self.value1@, i, self.width as nat))
    }

    /// The number entry `i` of operand `M` denotes.
    pub open spec fn m_val(self, i: int) -> nat {
        limbs_to_nat(entry_limbs(self.value2@, i, self.width as nat))
    }
}

/// Per-run generation policy: which of the generator's rules are applied
/// to the randomly drawn limbs.
#[derive(Debug)]
pub struct GenPolicy {
    /// Clamp the most significant limb of each `A`/`B` entry to at most
    /// this value, so the unreduced product keeps headroom.
    pub top_limb_limit: Option<u32>,
    /// Force every `M` entry to this one shared mask/modulus of `width`
    /// limbs.
    pub modulus_mask: Option<Vec<u32>>,
}

impl GenPolicy {
    /// A mask, when given, must have exactly the batch width.
    pub open spec fn wf(self, width: nat) -> bool {
        match self.modulus_mask {
            Some(m) => m@.len() == width,
            None => true,
        }
    }
}

/// A limb clamped to at most `limit`.
pub open spec fn clamp_limb(x: u32, limit: u32) -> u32 {
    if x > limit {
        limit
    } else {
        x
    }
}

/// What the generator leaves at flat index `k` of an `A`/`B` buffer, given
/// the randomly drawn limbs: the draw itself, except that the top limb of
/// each entry is clamped when the policy asks for it.
pub open spec fn gen_operand_limb(rnd: Seq<u32>, k: int, w: nat, p: GenPolicy) -> u32 {
    if w > 0 && k % (w as int) == w - 1 {
        match p.top_limb_limit {
            Some(l) => clamp_limb(rnd[k], l),
            None => rnd[k],
        }
    } else {
        rnd[k]
    }
}

/// What the generator leaves at flat index `k` of the `M` buffer: the
/// shared mask limb for that position, or the draw when no mask is set.
pub open spec fn gen_mask_limb(rnd: Seq<u32>, k: int, w: nat, p: GenPolicy) -> u32 {
    match p.modulus_mask {
        Some(m) => m@[k % (w as int)],
        None => rnd[k],
    }
}

/// A zero-filled result array for `n` entries of `width` limbs: the
/// output buffer must never carry residual memory into the comparison.
pub fn zero_out(n: usize, width: usize) -> (r: Output)
    requires
        n * width <= usize::MAX,
    ensures
        r.values@.len() == n * width,
        forall|k: int| 0 <= k < n * width ==> r.values@[k] == 0,
{
    let total = n * width;
    let mut values: Vec<u32> = Vec::new();
    let mut k: usize = 0;
    while k < total
        invariant
            k <= total,
            values@.len() == k,
            forall|j: int| 0 <= j < k ==> values@[j] == 0,
        decreases total - k,
    {
        values.push(0);
        k += 1;
    }
    Output { values }
}

/// Relies on `rand::random`: one uniformly drawn 32-bit value. The result
/// depends on the process generator, so nothing is promised of it.
#[verifier::external_body]
fn draw_limb() -> (r: u32) {
    rand::random::<u32>()
}

/// `count` limbs drawn from the process random number generator. Nothing
/// is promised of the values: callers hold for every draw.
pub fn random_limbs(count: usize) -> (r: Vec<u32>)
    ensures
        r@.len() == count,
{
    let mut r: Vec<u32> = Vec::new();
    let mut k: usize = 0;
    while k < count
        invariant
            k <= count,
            r@.len() == k,
        decreases count - k,
    {
        r.push(draw_limb());
        k += 1;
    }
    r
}

/// Builds a batch from drawn limbs, applying the policy: the verified
/// core of generation, total over every draw. Each buffer keeps the draws
/// except where the policy dictates a limb.
pub fn generate_from(
    n: usize,
    width: usize,
    rand0: &Vec<u32>,
    rand1: &Vec<u32>,
    rand2: &Vec<u32>,
    policy: &GenPolicy,
) -> (r: Input)
    requires
        n * width <= usize::MAX,
        rand0@.len() == n * width,
        rand1@.len() == n * width,
        rand2@.len() == n * width,
        policy.wf(width as nat),
    ensures
        r.wf(),
        r.n == n,
        r.width == width,
        forall|k: int|
            0 <= k < n * width ==> r.value0@[k] == gen_operand_limb(
                rand0@,
                k,
                width as nat,
                *policy,
            ),
        forall|k: int|
            0 <= k < n * width ==> r.value1@[k] == gen_operand_limb(
                rand1@,
                k,
                width as nat,
                *policy,
            ),
        forall|k: int|
            0 <= k < n * width ==> r.value2@[k] == gen_mask_limb(rand2@, k, width as nat, *policy),
{
    let mut value0: Vec<u32> = Vec::new();
    let mut value1: Vec<u32> = Vec::new();
    let mut value2: Vec<u32> = Vec::new();
    let mut i: usize = 0;
    while i < n
        invariant
            i <= n,
            n * width <= usize::MAX,
            rand0@.len() == n * width,
            rand1@.len() == n * width,
            rand2@.len() == n * width,
            policy.wf(width as nat),
            value0@.len() == i * width,
            value1@.len() == i * width,
            value2@.len() == i * width,
            forall|k: int|
                0 <= k < i * width ==> value0@[k] == gen_operand_limb(
                    rand0@,
                    k,
                    width as nat,
                    *policy,
                ),
            forall|k: int|
                0 <= k < i * width ==> value1@[k] == gen_operand_limb(
                    rand1@,
                    k,
                    width as nat,
                    *policy,
                ),
            forall|k: int|
                0 <= k < i * width ==> value2@[k] == gen_mask_limb(
                    rand2@,
                    k,
                    width as nat,
                    *policy,
                ),
        decreases n - i,
    {
        let mut j: usize = 0;
        proof {
            lemma_mul_inequality(i as int + 1, n as int, width as int);
            lemma_mul_is_distributive_add_other_way(width as int, i as int, 1);
        }
        while j < width
            invariant
                j <= width,
                i < n,
                n * width <= usize::MAX,
                rand0@.len() == n * width,
                rand1@.len() == n * width,
                rand2@.len() == n * width,
                policy.wf(width as nat),
                (i + 1) * width <= n * width,
                (i + 1) * width == i * width + width,
                value0@.len() == i * width + j,
                value1@.len() == i * width + j,
                value2@.len() == i * width + j,
                forall|k: int|
                    0 <= k < i * width + j ==> value0@[k] == gen_operand_limb(
                        rand0@,
                        k,
                        width as nat,
                        *policy,
                    ),
                forall|k: int|
                    0 <= k < i * width + j ==> value1@[k] == gen_operand_limb(
                        rand1@,
                        k,
                        width as nat,
                        *policy,
                    ),
                forall|k: int|
                    0 <= k < i * width + j ==> value2@[k] == gen_mask_limb(
                        rand2@,
                        k,
                        width as nat,
                        *policy,
                    ),
            decreases width - j,
        {
            let k = i * width + j;
            proof {
                assert((i * width + j) % (width as int) == j) by {
                    vstd::arithmetic::mul::lemma_mul_is_commutative(i as int, width as int);
                    lemma_mod_multiples_vanish(i as int, j as int, width as int);
                    lemma_small_mod(j as nat, width as nat);
                }
            }
            let x0 = rand0[k];
            let x1 = rand1[k];
            let limb0: u32;
            let limb1: u32;
            if j == width - 1 {
                match policy.top_limb_limit {
                    Some(l) => {
                        limb0 = if x0 > l {
                            l
                        } else {
                            x0
                        };
                        limb1 = if x1 > l {
                            l
                        } else {
                            x1
                        };
                    },
                    None => {
                        limb0 = x0;
                        limb1 = x1;
                    },
                }
            } else {
                limb0 = x0;
                limb1 = x1;
            }
            let limb2: u32 = match &policy.modulus_mask {
                Some(m) => m[j],
                None => rand2[k],
            };
            value0.push(limb0);
            value1.push(limb1);
            value2.push(limb2);
            j += 1;
        }
        i += 1;
    }
    proof {
        assert(n * width == n * width);
    }
    Input { n, width, value0, value1, value2 }
}

/// The default batch of this harness, drawn fresh from the process random
/// number generator: 4000 cases of four limbs (128 bits), `A`/`B` top
/// limbs clamped to `0x000fffff` so the unreduced product keeps headroom,
/// and every `M` entry the shared mask `2^128 - 2`.
pub fn rand() -> (r: Input)
    ensures
        r.wf(),
        r.n == 4000,
        r.width == 4,
        forall|k: int| 0 <= k < 4000 * 4 ==> (k % 4 == 3 ==> r.value0@[k] <= 0x000fffff),
        forall|k: int| 0 <= k < 4000 * 4 ==> (k % 4 == 3 ==> r.value1@[k] <= 0x000fffff),
        forall|k: int|
            0 <= k < 4000 * 4 ==> r.value2@[k] == (if k % 4 == 0 {
                0xfffffffeu32
            } else {
                0xffffffffu32
            }),
{
    let rand0 = random_limbs(4000 * 4);
    let rand1 = random_limbs(4000 * 4);
    let rand2 = random_limbs(4000 * 4);
    let mut mask: Vec<u32> = Vec::new();
    mask.push(0xfffffffe);
    mask.push(0xffffffff);
    mask.push(0xffffffff);
    mask.push(0xffffffff);
    let policy = GenPolicy { top_limb_limit: Some(0x000fffff), modulus_mask: Some(mask) };
    let r = generate_from(4000, 4, &rand0, &rand1, &rand2, &policy);
    proof {
        assert forall|k: int| 0 <= k < 4000 * 4 && k % 4 == 3 implies r.value0@[k]
            <= 0x000fffff by {
            assert(r.value0@[k] == gen_operand_limb(rand0@, k, 4, policy));
        }
        assert forall|k: int| 0 <= k < 4000 * 4 && k % 4 == 3 implies r.value1@[k]
            <= 0x000fffff by {
            assert(r.value1@[k] == gen_operand_limb(rand1@, k, 4, policy));
        }
        assert forall|k: int| 0 <= k < 4000 * 4 implies r.value2@[k] == (if k % 4 == 0 {
            0xfffffffeu32
        } else {
            0xffffffffu32
        }) by {
            assert(r.value2@[k] == gen_mask_limb(rand2@, k, 4, policy));
            assert(0 <= k % 4 < 4) by {
                vstd::arithmetic::div_mod::lemma_mod_bound(k, 4);
            }
        }
    }
    r
}

/// Copies one entry of `width` limbs out of a flat buffer.
pub fn get_entry(s: &Vec<u32>, i: usize, width: usize) -> (r: Vec<u32>)
    requires
        (i + 1) * width <= s@.len(),
    ensures
        r@ == entry_limbs(s@, i as int, width as nat),
{
    let mut r: Vec<u32> = Vec::new();
    let mut j: usize = 0;
    let slen = s.len();
    proof {
        lemma_mul_is_distributive_add_other_way(width as int, i as int, 1);
    }
    while j < width
        invariant
            j <= width,
            slen == s@.len(),
            i * width + width <= slen,
            r@.len() == j,
            forall|t: int| 0 <= t < j ==> r@[t] == s@[i * width + t],
        decreases width - j,
    {
        r.push(s[i * width + j]);
        j += 1;
    }
    proof {
        assert(r@ =~= entry_limbs(s@, i as int, width as nat));
    }
    r
}

/// Copies a flat limb buffer; the layout and every limb are kept.
pub fn copy_limbs(v: &Vec<u32>) -> (r: Vec<u32>)
    ensures
        r@ == v@,
{
    let mut r: Vec<u32> = Vec::new();
    let mut k: usize = 0;
    while k < v.len()
        invariant
            k <= v@.len(),
            r@ == v@.subrange(0, k as int),
        decreases v@.len() - k,
    {
        r.push(v[k]);
        proof {
            assert(v@.subrange(0, k + 1) =~= v@.subrange(0, k as int).push(v@[k as int]));
        }
        k += 1;
    }
    proof {
        assert(v@.subrange(0, v@.len() as int) =~= v@);
    }
    r
}

/// The generator's headroom guarantee: when the top limb of two equally
/// wide operands is clamped to `l`, and `(l+1)^2` fits 64 bits, their
/// unreduced product fits the double-width buffer without truncation —
/// the precondition the comparator's exactness rests on.
pub proof fn lemma_clamped_product_fits_double_width(a: Seq<u32>, b: Seq<u32>, l: u32)
    requires
        a.len() == b.len(),
        a.len() > 0,
        a[a.len() - 1] <= l,
        b[b.len() - 1] <= l,
        (l + 1) * (l + 1) <= pow2(64),
    ensures
        limbs_to_nat(a) * limbs_to_nat(b) < pow2(2 * (32 * a.len())),
{
    let w = a.len();
    let e = (32 * (w - 1)) as nat;
    lemma_limbs_to_nat_top_bound(a, l);
    lemma_limbs_to_nat_top_bound(b, l);
    vstd::arithmetic::power2::lemma_pow2_pos(e);
    let bound = (l + 1) * pow2(e);
    assert(bound > 0) by (nonlinear_arith)
        requires
            pow2(e) > 0,
            l >= 0,
            bound == (l + 1) * pow2(e),
    ;
    assert(limbs_to_nat(a) * limbs_to_nat(b) < bound * bound) by (nonlinear_arith)
        requires
            limbs_to_nat(a) < bound,
            limbs_to_nat(b) < bound,
            bound > 0,
    ;
    assert(bound * bound == ((l + 1) * (l + 1)) * (pow2(e) * pow2(e))) by (nonlinear_arith)
        requires
            bound == (l + 1) * pow2(e),
    ;
    vstd::arithmetic::power2::lemma_pow2_adds(e, e);
    assert(pow2(e) * pow2(e) == pow2(e + e));
    vstd::arithmetic::power2::lemma_pow2_pos((e + e) as nat);
    assert(((l + 1) * (l + 1)) * pow2(e + e) <= pow2(64) * pow2(e + e)) by (nonlinear_arith)
        requires
            (l + 1) * (l + 1) <= pow2(64),
            pow2(e + e) > 0,
    ;
    vstd::arithmetic::power2::lemma_pow2_adds(64, e + e);
    assert(64 + (e + e) == 2 * (32 * w));
}

impl Input {
    /// Operand `A` on its own, for buffer flattening.
    pub fn single0(&self) -> (r: InputSingle)
        ensures
            r.value@ == self.value0@,
    {
        InputSingle { value: copy_limbs(&self.value0) }
    }

    /// Operand `B` on its own, for buffer flattening.
    pub fn single1(&self) -> (r: InputSingle)
        ensures
            r.value@ == self.value1@,
    {
        InputSingle { value: copy_limbs(&self.value1) }
    }

    /// Operand `M` on its own, for buffer flattening.
    pub fn single2(&self) -> (r: InputSingle)
        ensures
            r.value@ == self.value2@,
    {
        InputSingle { value: copy_limbs(&self.value2) }
    }
}

impl InputSingle {
    /// The byte-exact flattening of this operand array, as a device
    /// buffer carries it.
    pub fn to_bytes(&self) -> (r: Vec<u8>)
        ensures
            r@ == limbs_to_bytes_spec(self.value@),
            r@.len() == 4 * self.value@.len(),
    {
        limbs_to_bytes(&self.value)
    }
}

} // verus!
