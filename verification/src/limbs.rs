//! The limb codec: the meaning of a fixed-width, little-endian sequence of
//! 32-bit limbs, and the byte-exact flattening shared with the device.

use vstd::prelude::*;
use vstd::arithmetic::power2::{pow2, lemma_pow2_adds, lemma_pow2_pos, lemma2_to64};
use vstd::arithmetic::div_mod::{
    lemma_fundamental_div_mod, lemma_fundamental_div_mod_converse, lemma_mod_multiples_vanish,
    lemma_small_mod,
};
use vstd::arithmetic::mul::{
    lemma_mul_inequality, lemma_mul_is_commutative, lemma_mul_is_distributive_sub,
};
use vstd::bytes::{spec_u32_to_le_bytes, u32_from_le_bytes, u32_to_le_bytes};

verus! {

/// The number a limb sequence denotes: Σ s[i] · 2^(32·i),
/// least-significant limb first.
pub open spec fn limbs_to_nat(s: Seq<u32>) -> nat
    decreases s.len(),
{
    if s.len() == 0 {
        0
    } else {
        (s[0] + 0x100000000 * limbs_to_nat(s.subrange(1, s.len() as int))) as nat
    }
}

/// The canonical `w`-limb encoding of `v`: base-2^32 digits, zero-padded.
pub open spec fn nat_to_limbs(v: nat, w: nat) -> Seq<u32>
    decreases w,
{
    if w == 0 {
        Seq::empty()
    } else {
        seq![(v % 0x100000000) as u32] + nat_to_limbs(v / 0x100000000, (w - 1) as nat)
    }
}

/// Unfolds `limbs_to_nat` at the front of a non-empty sequence.
proof fn lemma_limbs_to_nat_cons(s: Seq<u32>)
    requires
        s.len() > 0,
    ensures
        limbs_to_nat(s) == s[0] + 0x100000000 * limbs_to_nat(s.subrange(1, s.len() as int)),
{
}

/// A `w`-limb sequence denotes a number below 2^(32·w).
pub proof fn lemma_limbs_to_nat_bound(s: Seq<u32>)
    ensures
        limbs_to_nat(s) < pow2(32 * s.len()),
    decreases s.len(),
{
    lemma2_to64();
    if s.len() == 0 {
        assert(pow2(0) == 1);
    } else {
        let tail = s.subrange(1, s.len() as int);
        lemma_limbs_to_nat_bound(tail);
        lemma_pow2_adds(32, 32 * tail.len());
        lemma_pow2_pos(32);
        lemma_pow2_pos(32 * tail.len());
        assert(limbs_to_nat(tail) <= pow2(32 * tail.len()) - 1);
        lemma_mul_inequality(
            limbs_to_nat(tail) as int,
            pow2(32 * tail.len()) - 1,
            pow2(32) as int,
        );
        lemma_mul_is_commutative(limbs_to_nat(tail) as int, pow2(32) as int);
        assert(pow2(32) * limbs_to_nat(tail) <= pow2(32) * (pow2(32 * tail.len()) - 1));
        lemma_mul_is_distributive_sub(pow2(32) as int, pow2(32 * tail.len()) as int, 1);
        assert(32 * s.len() == 32 + 32 * tail.len());
    }
}

/// The canonical encoding always has exactly `w` limbs.
pub proof fn lemma_nat_to_limbs_len(v: nat, w: nat)
    ensures
        nat_to_limbs(v, w).len() == w,
    decreases w,
{
    if w > 0 {
        lemma_nat_to_limbs_len(v / 0x100000000, (w - 1) as nat);
    }
}

/// Round trip: decoding the canonical `w`-limb encoding of any
/// `v < 2^(32·w)` gives `v` back.
pub proof fn lemma_limbs_round_trip(v: nat, w: nat)
    requires
        v < pow2(32 * w),
    ensures
        limbs_to_nat(nat_to_limbs(v, w)) == v,
    decreases w,
{
    lemma2_to64();
    if w == 0 {
        assert(pow2(0) == 1);
    } else {
        let lo = v % 0x100000000;
        let hi = v / 0x100000000;
        lemma_fundamental_div_mod(v as int, 0x100000000);
        assert(hi < pow2((32 * (w - 1)) as nat)) by {
            lemma_pow2_adds(32, 32 * (w - 1) as nat);
            assert(32 * w == 32 + 32 * (w - 1));
            lemma_pow2_pos(32 * (w - 1) as nat);
            if hi >= pow2((32 * (w - 1)) as nat) {
                lemma_mul_inequality(
                    pow2(32 * (w - 1) as nat) as int,
                    hi as int,
                    0x100000000,
                );
                lemma_mul_is_commutative(hi as int, 0x100000000);
                lemma_mul_is_commutative(pow2(32 * (w - 1) as nat) as int, 0x100000000);
                assert(false);
            }
        }
        lemma_limbs_round_trip(hi, (w - 1) as nat);
        let s = nat_to_limbs(v, w);
        let tail = nat_to_limbs(hi, (w - 1) as nat);
        lemma_nat_to_limbs_len(v, w);
        assert(s == seq![(lo as u32)] + tail);
        assert(s.subrange(1, s.len() as int) =~= tail);
        lemma_limbs_to_nat_cons(s);
        assert(s[0] == lo);
        assert(limbs_to_nat(s) == lo + 0x100000000 * hi);
    }
}

/// Canonicity: re-encoding the number a sequence denotes, at the same
/// width, reproduces the sequence exactly.
pub proof fn lemma_limbs_canonical(s: Seq<u32>)
    ensures
        nat_to_limbs(limbs_to_nat(s), s.len()) == s,
    decreases s.len(),
{
    if s.len() > 0 {
        let tail = s.subrange(1, s.len() as int);
        lemma_limbs_canonical(tail);
        let v = limbs_to_nat(s);
        lemma_limbs_to_nat_cons(s);
        assert(v % 0x100000000 == s[0]) by {
            lemma_mod_multiples_vanish(limbs_to_nat(tail) as int, s[0] as int, 0x100000000);
            lemma_small_mod(s[0] as nat, 0x100000000);
        }
        assert(v / 0x100000000 == limbs_to_nat(tail)) by {
            lemma_mul_is_commutative(0x100000000, limbs_to_nat(tail) as int);
            lemma_fundamental_div_mod_converse(
                v as int,
                0x100000000,
                limbs_to_nat(tail) as int,
                s[0] as int,
            );
        }
        assert(nat_to_limbs(v, s.len()) =~= s);
    }
}

/// A sequence whose top limb is non-zero denotes at least 2^(32·(len-1)):
/// such a value cannot be encoded in fewer limbs.
pub proof fn lemma_limbs_to_nat_lower_bound(s: Seq<u32>)
    requires
        s.len() > 0,
        s[s.len() - 1] != 0,
    ensures
        limbs_to_nat(s) >= pow2(32 * (s.len() - 1) as nat),
    decreases s.len(),
{
    lemma2_to64();
    lemma_limbs_to_nat_cons(s);
    let tail = s.subrange(1, s.len() as int);
    if s.len() == 1 {
        assert(pow2(0) == 1);
    } else {
        assert(tail[tail.len() - 1] == s[s.len() - 1]);
        lemma_limbs_to_nat_lower_bound(tail);
        lemma_pow2_adds(32, 32 * (tail.len() - 1) as nat);
        lemma_mul_inequality(
            pow2(32 * (tail.len() - 1) as nat) as int,
            limbs_to_nat(tail) as int,
            pow2(32) as int,
        );
        lemma_mul_is_commutative(limbs_to_nat(tail) as int, pow2(32) as int);
        lemma_mul_is_commutative(pow2(32 * (tail.len() - 1) as nat) as int, pow2(32) as int);
        assert(32 * (s.len() - 1) as nat == 32 + 32 * (tail.len() - 1) as nat);
    }
}

/// A sequence whose top limb is at most `l` denotes less than
/// (l+1) · 2^(32·(len-1)): the top limb bounds the whole value.
pub proof fn lemma_limbs_to_nat_top_bound(s: Seq<u32>, l: u32)
    requires
        s.len() > 0,
        s[s.len() - 1] <= l,
    ensures
        limbs_to_nat(s) < (l + 1) * pow2(32 * (s.len() - 1) as nat),
    decreases s.len(),
{
    lemma2_to64();
    lemma_limbs_to_nat_cons(s);
    let tail = s.subrange(1, s.len() as int);
    if s.len() == 1 {
        assert(pow2(0) == 1);
        assert(limbs_to_nat(tail) == 0);
        assert(limbs_to_nat(s) == s[0]);
        assert((l + 1) * pow2(0) == (l + 1) * 1);
    } else {
        assert(tail[tail.len() - 1] == s[s.len() - 1]);
        lemma_limbs_to_nat_top_bound(tail, l);
        let e = 32 * (tail.len() - 1) as nat;
        lemma_pow2_adds(32, e);
        lemma_pow2_pos(e);
        assert(limbs_to_nat(tail) <= (l + 1) * pow2(e) - 1);
        lemma_mul_inequality(limbs_to_nat(tail) as int, (l + 1) * pow2(e) - 1, 0x100000000);
        lemma_mul_is_commutative(limbs_to_nat(tail) as int, 0x100000000);
        assert(0x100000000 * limbs_to_nat(tail) <= ((l + 1) * pow2(e) - 1) * 0x100000000);
        assert(((l + 1) * pow2(e) - 1) * 0x100000000 == (l + 1) * (pow2(e) * 0x100000000)
            - 0x100000000) by (nonlinear_arith);
        assert(pow2(e) * 0x100000000 == pow2(32) * pow2(e));
        assert(32 * (s.len() - 1) as nat == 32 + e);
        assert(pow2(32 * (s.len() - 1) as nat) == pow2(32) * pow2(e));
        assert(s[0] < 0x100000000);
    }
}

/// Appending a limb extends the denoted number by one base-2^32 digit.
#[verifier::spinoff_prover]
#[verifier::rlimit(30)]
pub proof fn lemma_limbs_to_nat_push(s: Seq<u32>, x: u32)
    ensures
        limbs_to_nat(s.push(x)) == limbs_to_nat(s) + x * pow2(32 * s.len()),
    decreases s.len(),
{
    lemma2_to64();
    if s.len() == 0 {
        assert(s.push(x) =~= seq![x]);
        assert(seq![x].subrange(1, 1) =~= Seq::<u32>::empty());
        assert(pow2(0) == 1);
        assert(limbs_to_nat(Seq::<u32>::empty()) == 0);
        assert(limbs_to_nat(seq![x]) == x + 0x100000000 * 0);
        assert(limbs_to_nat(s) == 0);
        assert(32 * s.len() == 0);
        assert(x * pow2(0) == x * 1);
        assert(limbs_to_nat(s.push(x)) == limbs_to_nat(s) + x * pow2(32 * s.len()));
    } else {
        let tail = s.subrange(1, s.len() as int);
        lemma_limbs_to_nat_push(tail, x);
        assert(s.push(x).subrange(1, s.push(x).len() as int) =~= tail.push(x));
        lemma_limbs_to_nat_cons(s.push(x));
        lemma_limbs_to_nat_cons(s);
        lemma_pow2_adds(32, 32 * tail.len());
        assert(limbs_to_nat(s.push(x)) == s[0] + 0x100000000 * limbs_to_nat(tail.push(x)));
        assert(limbs_to_nat(tail.push(x)) == limbs_to_nat(tail) + x * pow2(32 * tail.len()));
        assert(0x100000000 * (limbs_to_nat(tail) + x * pow2(32 * tail.len())) == 0x100000000
            * limbs_to_nat(tail) + x * (0x100000000 * pow2(32 * tail.len())))
            by (nonlinear_arith);
        assert(32 * s.len() == 32 + 32 * tail.len());
        assert(pow2(32) * pow2(32 * tail.len()) == pow2(32 * s.len()));
        assert(0x100000000 * pow2(32 * tail.len()) == pow2(32 * s.len()));
        assert(x * (0x100000000 * pow2(32 * tail.len())) == x * pow2(32 * s.len()));
        assert(limbs_to_nat(s.push(x)) == (s[0] + 0x100000000 * limbs_to_nat(tail)) + x * pow2(
            32 * s.len(),
        ));
        assert(limbs_to_nat(s.push(x)) == limbs_to_nat(s) + x * pow2(32 * s.len()));
    }
}

/// 2^e1 <= 2^e2 when e1 <= e2.
pub proof fn lemma_pow2_le(e1: nat, e2: nat)
    requires
        e1 <= e2,
    ensures
        pow2(e1) <= pow2(e2),
{
    if e1 < e2 {
        vstd::arithmetic::power2::lemma_pow2_strictly_increases(e1, e2);
    }
}

/// The byte-exact flattening of a limb sequence: each limb contributes its
/// four bytes, least-significant byte first, with no padding anywhere.
pub open spec fn limbs_to_bytes_spec(s: Seq<u32>) -> Seq<u8>
    decreases s.len(),
{
    if s.len() == 0 {
        Seq::empty()
    } else {
        spec_u32_to_le_bytes(s[0]) + limbs_to_bytes_spec(s.subrange(1, s.len() as int))
    }
}

/// Flattening one more limb appends exactly its four bytes.
pub proof fn lemma_limbs_to_bytes_push(s: Seq<u32>, x: u32)
    ensures
        limbs_to_bytes_spec(s.push(x)) == limbs_to_bytes_spec(s) + spec_u32_to_le_bytes(x),
    decreases s.len(),
{
    vstd::bytes::lemma_auto_spec_u32_to_from_le_bytes();
    if s.len() == 0 {
        assert(s.push(x).subrange(1, 1) =~= Seq::<u32>::empty());
        assert(limbs_to_bytes_spec(Seq::<u32>::empty()) == Seq::<u8>::empty());
        assert(s.push(x)[0] == x);
        assert(limbs_to_bytes_spec(s.push(x)) == spec_u32_to_le_bytes(x) + Seq::<u8>::empty());
        assert(limbs_to_bytes_spec(s) == Seq::<u8>::empty());
        assert(spec_u32_to_le_bytes(x) + Seq::<u8>::empty() =~= Seq::<u8>::empty()
            + spec_u32_to_le_bytes(x));
    } else {
        let tail = s.subrange(1, s.len() as int);
        lemma_limbs_to_bytes_push(tail, x);
        assert(s.push(x).subrange(1, s.push(x).len() as int) =~= tail.push(x));
        assert(limbs_to_bytes_spec(s.push(x)) == spec_u32_to_le_bytes(s[0])
            + limbs_to_bytes_spec(tail.push(x)));
        assert(limbs_to_bytes_spec(tail.push(x)) == limbs_to_bytes_spec(tail)
            + spec_u32_to_le_bytes(x));
        assert(limbs_to_bytes_spec(s) == spec_u32_to_le_bytes(s[0]) + limbs_to_bytes_spec(tail));
        assert(spec_u32_to_le_bytes(s[0]) + (limbs_to_bytes_spec(tail) + spec_u32_to_le_bytes(x))
            =~= (spec_u32_to_le_bytes(s[0]) + limbs_to_bytes_spec(tail)) + spec_u32_to_le_bytes(
            x,
        ));
    }
}

/// The flattening is four bytes per limb.
pub proof fn lemma_limbs_to_bytes_len(s: Seq<u32>)
    ensures
        limbs_to_bytes_spec(s).len() == 4 * s.len(),
    decreases s.len(),
{
    vstd::bytes::lemma_auto_spec_u32_to_from_le_bytes();
    if s.len() > 0 {
        lemma_limbs_to_bytes_len(s.subrange(1, s.len() as int));
    }
}

/// Flattens limbs into the exact byte image the device buffers carry.
pub fn limbs_to_bytes(v: &Vec<u32>) -> (r: Vec<u8>)
    ensures
        r@ == limbs_to_bytes_spec(v@),
        r@.len() == 4 * v@.len(),
{
    let mut r: Vec<u8> = Vec::new();
    let mut i: usize = 0;
    proof {
        assert(v@.subrange(0, 0) =~= Seq::<u32>::empty());
    }
    while i < v.len()
        invariant
            i <= v@.len(),
            r@ == limbs_to_bytes_spec(v@.subrange(0, i as int)),
            r@.len() == 4 * i,
        decreases v@.len() - i,
    {
        let bytes = u32_to_le_bytes(v[i]);
        let mut j: usize = 0;
        while j < bytes.len()
            invariant
                j <= bytes@.len(),
                bytes@.len() == 4,
                bytes@ == spec_u32_to_le_bytes(v@[i as int]),
                i < v@.len(),
                r@ == limbs_to_bytes_spec(v@.subrange(0, i as int)) + bytes@.subrange(
                    0,
                    j as int,
                ),
            decreases bytes@.len() - j,
        {
            r.push(bytes[j]);
            proof {
                assert(bytes@.subrange(0, j + 1) =~= bytes@.subrange(0, j as int).push(
                    bytes@[j as int],
                ));
            }
            j += 1;
        }
        proof {
            assert(bytes@.subrange(0, 4) =~= bytes@);
            assert(v@.subrange(0, i + 1) =~= v@.subrange(0, i as int).push(v@[i as int]));
            lemma_limbs_to_bytes_push(v@.subrange(0, i as int), v@[i as int]);
            lemma_limbs_to_bytes_len(v@.subrange(0, i + 1));
        }
        i += 1;
    }
    proof {
        assert(v@.subrange(0, v@.len() as int) =~= v@);
    }
    r
}

/// Reads a device byte image back into limbs, byte for byte.
pub fn bytes_to_limbs(b: &Vec<u8>) -> (r: Vec<u32>)
    requires
        b@.len() % 4 == 0,
    ensures
        r@.len() == b@.len() / 4,
        limbs_to_bytes_spec(r@) == b@,
{
    proof {
        vstd::bytes::lemma_auto_spec_u32_to_from_le_bytes();
    }
    let mut r: Vec<u32> = Vec::new();
    let mut i: usize = 0;
    let n = b.len() / 4;
    proof {
        assert(b@.subrange(0, 0) =~= Seq::<u8>::empty());
        lemma_fundamental_div_mod(b@.len() as int, 4);
    }
    while i < n
        invariant
            i <= n,
            n == b@.len() / 4,
            b@.len() % 4 == 0,
            b@.len() == 4 * n,
            b@.len() <= usize::MAX,
            r@.len() == i,
            limbs_to_bytes_spec(r@) == b@.subrange(0, 4 * i),
        decreases n - i,
    {
        let chunk: [u8; 4] = [b[4 * i], b[4 * i + 1], b[4 * i + 2], b[4 * i + 3]];
        let limb = u32_from_le_bytes(chunk.as_slice());
        proof {
            assert(chunk@ =~= b@.subrange(4 * i as int, 4 * i + 4));
            vstd::bytes::lemma_auto_spec_u32_to_from_le_bytes();
            assert(spec_u32_to_le_bytes(vstd::bytes::spec_u32_from_le_bytes(chunk@)) == chunk@);
            lemma_limbs_to_bytes_push(r@, vstd::bytes::spec_u32_from_le_bytes(chunk@));
            assert(b@.subrange(0, 4 * (i + 1)) =~= b@.subrange(0, 4 * i as int) + b@.subrange(
                4 * i as int,
                4 * i + 4,
            ));
        }
        r.push(limb);
        i += 1;
    }
    proof {
        assert(b@.subrange(0, 4 * n as int) =~= b@);
    }
    r
}

} // verus!
