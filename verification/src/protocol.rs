//! The device buffer protocol and the dispatch/readback controller: the
//! exact byte layout, binding order and usage of the five buffers of one
//! kernel invocation, and the state machine that drives submit, map,
//! decode and release in order.

use vstd::prelude::*;
use vstd::arithmetic::div_mod::{lemma_div_multiples_vanish, lemma_mod_multiples_basic};
use vstd::arithmetic::mul::lemma_mul_is_commutative;
use crate::RunError;
use crate::batch::{Input, Output};
use crate::limbs::{bytes_to_limbs, limbs_to_bytes, limbs_to_bytes_spec};

verus! {

/// The fixed workgroup count of every dispatch, independent of the batch
/// size: the kernel strides over the batch, and both sides agree on this
/// constant out of band.
pub const WORKGROUP_COUNT: u32 = 64;

/// The four logical roles the kernel binds, in their fixed slot order.
#[derive(Clone, Copy, Debug, PartialEq, Eq, Structural)]
pub enum BufferRole {
    /// Operand `A`: slot 0.
    OperandA,
    /// Operand `B`: slot 1.
    OperandB,
    /// The modulus/auxiliary operand: slot 2.
    OperandAux,
    /// The result buffer the kernel writes: slot 3.
    Output,
}

/// The binding slot of each role; fixed and part of the kernel contract.
pub open spec fn spec_binding_slot(role: BufferRole) -> u32 {
    match role {
        BufferRole::OperandA => 0,
        BufferRole::OperandB => 1,
        BufferRole::OperandAux => 2,
        BufferRole::Output => 3,
    }
}

/// The binding slot of each role.
pub fn binding_slot(role: BufferRole) -> (r: u32)
    ensures
        r == spec_binding_slot(role),
{
    match role {
        BufferRole::OperandA => 0,
        BufferRole::OperandB => 1,
        BufferRole::OperandAux => 2,
        BufferRole::Output => 3,
    }
}

/// What one device buffer must be created as: its byte size, its usage
/// flags, the slot it is bound to (none for the staging buffer), and its
/// initial contents (none for the staging buffer, which starts unmapped
/// and uninitialized).
#[derive(Debug)]
pub struct BufferSpec {
    /// Size in bytes.
    pub size: u64,
    /// Usable as a storage buffer bound to the pipeline.
    pub storage: bool,
    /// Usable as the source of a buffer-to-buffer copy.
    pub copy_src: bool,
    /// Usable as the destination of a copy.
    pub copy_dst: bool,
    /// Mappable for host reads.
    pub map_read: bool,
    /// The binding slot, for the four kernel-visible buffers.
    pub binding: Option<u32>,
    /// The exact initial bytes, for the four kernel-visible buffers.
    pub contents: Option<Vec<u8>>,
}

/// The five buffers of one invocation: the four kernel-visible buffers in
/// their binding order, and the host-readable staging buffer the output
/// is copied into.
#[derive(Debug)]
pub struct BufferPlan {
    /// Operand `A`, slot 0.
    pub operand_a: BufferSpec,
    /// Operand `B`, slot 1.
    pub operand_b: BufferSpec,
    /// The modulus/auxiliary operand, slot 2.
    pub operand_aux: BufferSpec,
    /// The zero-initialized output buffer, slot 3.
    pub output: BufferSpec,
    /// The staging buffer for readback; same size as the output buffer.
    pub staging: BufferSpec,
}

/// One kernel-visible operand buffer is exactly the flattening of its
/// limbs: `storage | copy_dst`, bound at its slot, the batch bytes with
/// no padding.
pub open spec fn operand_spec_matches(b: BufferSpec, limbs: Seq<u32>, slot: u32) -> bool {
    &&& b.size == 4 * limbs.len()
    &&& b.storage
    &&& !b.copy_src
    &&& b.copy_dst
    &&& !b.map_read
    &&& b.binding == Some(slot)
    &&& match b.contents {
        Some(bytes) => bytes@ == limbs_to_bytes_spec(limbs),
        None => false,
    }
}

/// The whole plan for a batch: operands at slots 0..2, a zero-filled
/// output buffer at slot 3 that can also be copied out, and an unbound
/// staging buffer of the same size that can be mapped for reading.
pub open spec fn plan_matches(plan: BufferPlan, batch: Input) -> bool {
    let bytes_len = 4 * (batch.n * batch.width);
    &&& operand_spec_matches(plan.operand_a, batch.value0@, 0)
    &&& operand_spec_matches(plan.operand_b, batch.value1@, 1)
    &&& operand_spec_matches(plan.operand_aux, batch.value2@, 2)
    &&& plan.output.size == bytes_len
    &&& plan.output.storage
    &&& plan.output.copy_src
    &&& plan.output.copy_dst
    &&& !plan.output.map_read
    &&& plan.output.binding == Some(3u32)
    &&& match plan.output.contents {
        Some(bytes) => bytes@.len() == bytes_len && forall|k: int|
            0 <= k < bytes@.len() ==> bytes@[k] == 0,
        None => false,
    }
    &&& plan.staging.size == bytes_len
    &&& !plan.staging.storage
    &&& !plan.staging.copy_src
    &&& plan.staging.copy_dst
    &&& plan.staging.map_read
    &&& plan.staging.binding is None
    &&& plan.staging.contents is None
}

/// A zero-filled byte buffer.
fn zero_bytes(count: usize) -> (r: Vec<u8>)
    ensures
        r@.len() == count,
        forall|k: int| 0 <= k < count ==> r@[k] == 0,
{
    let mut r: Vec<u8> = Vec::new();
    let mut k: usize = 0;
    while k < count
        invariant
            k <= count,
            r@.len() == k,
            forall|t: int| 0 <= t < k ==> r@[t] == 0,
        decreases count - k,
    {
        r.push(0);
        k += 1;
    }
    r
}

/// Builds the five buffer specifications for one invocation of a batch:
/// fresh every time, because reusing buffers across differently shaped
/// batches would silently reinterpret bytes.
pub fn plan_buffers(batch: &Input) -> (plan: BufferPlan)
    requires
        batch.wf(),
        4 * (batch.n * batch.width) <= u64::MAX,
    ensures
        plan_matches(plan, *batch),
{
    let a_bytes = limbs_to_bytes(&batch.value0);
    let b_bytes = limbs_to_bytes(&batch.value1);
    let m_bytes = limbs_to_bytes(&batch.value2);
    proof {
        assert(a_bytes@.len() == 4 * (batch.n * batch.width));
    }
    let size = a_bytes.len() as u64;
    let out_bytes = zero_bytes(a_bytes.len());
    let operand_a = BufferSpec {
        size,
        storage: true,
        copy_src: false,
        copy_dst: true,
        map_read: false,
        binding: Some(0),
        contents: Some(a_bytes),
    };
    let operand_b = BufferSpec {
        size,
        storage: true,
        copy_src: false,
        copy_dst: true,
        map_read: false,
        binding: Some(1),
        contents: Some(b_bytes),
    };
    let operand_aux = BufferSpec {
        size,
        storage: true,
        copy_src: false,
        copy_dst: true,
        map_read: false,
        binding: Some(2),
        contents: Some(m_bytes),
    };
    let output = BufferSpec {
        size,
        storage: true,
        copy_src: true,
        copy_dst: true,
        map_read: false,
        binding: Some(3),
        contents: Some(out_bytes),
    };
    let staging = BufferSpec {
        size,
        storage: false,
        copy_src: false,
        copy_dst: true,
        map_read: true,
        binding: None,
        contents: None,
    };
    BufferPlan { operand_a, operand_b, operand_aux, output, staging }
}

/// The index-reversal table injected into the kernel source: position `t`
/// holds `width - 1 - t`.
pub fn reversal_table(width: usize) -> (r: Vec<usize>)
    ensures
        r@.len() == width,
        forall|t: int| 0 <= t < width ==> r@[t] == width - 1 - t,
{
    let mut r: Vec<usize> = Vec::new();
    let mut t: usize = 0;
    while t < width
        invariant
            t <= width,
            r@.len() == t,
            forall|u: int| 0 <= u < t ==> r@[u] == width - 1 - u,
        decreases width - t,
    {
        r.push(width - 1 - t);
        t += 1;
    }
    r
}

/// The phases of one dispatch/readback round trip, in order. Exactly one
/// dispatch is in flight at a time; each phase is left only forward.
#[derive(Clone, Copy, Debug, PartialEq, Eq, Structural)]
pub enum Phase {
    /// Nothing built yet.
    Idle,
    /// All five buffers constructed.
    BuffersBuilt,
    /// One command sequence submitted: one dispatch, then one copy from
    /// the output buffer to the staging buffer.
    Submitted,
    /// An asynchronous read-mapping of the staging buffer requested.
    MapRequested,
    /// The completion signal fired and the mapped bytes were copied out
    /// (before unmapping, after which the mapped view is invalid).
    MapComplete,
    /// The raw bytes were decoded into a result batch.
    Decoded,
    /// Buffers freed; the result has been handed out.
    Released,
}

/// Drives one kernel invocation through its phases and owns the raw
/// readback bytes until they are decoded. The controller itself never
/// touches a device: the surrounding runtime performs each step and
/// reports it here, and this state machine refuses any step out of order.
pub struct DispatchController {
    /// Current phase.
    pub phase: Phase,
    /// Batch size of this invocation.
    pub n: usize,
    /// Limbs per entry of this invocation.
    pub width: usize,
    /// The bytes copied out of the mapped staging buffer.
    pub raw: Vec<u8>,
}

impl DispatchController {
    /// The byte size of the output and staging buffers.
    pub open spec fn byte_len(self) -> int {
        4 * (self.n * self.width)
    }

    /// The shape always fits the machine, and from `MapComplete` on the
    /// raw bytes are exactly one output buffer.
    pub open spec fn wf(self) -> bool {
        &&& self.n * self.width <= usize::MAX
        &&& 4 * (self.n * self.width) <= u64::MAX
        &&& ((self.phase == Phase::MapComplete || self.phase == Phase::Decoded || self.phase
            == Phase::Released) ==> self.raw@.len() == self.byte_len())
    }

    /// A controller for one invocation of an `n` by `width` batch.
    pub fn new(n: usize, width: usize) -> (r: Self)
        requires
            n * width <= usize::MAX,
            4 * (n * width) <= u64::MAX,
        ensures
            r.phase == Phase::Idle,
            r.n == n,
            r.width == width,
            r.wf(),
    {
        DispatchController { phase: Phase::Idle, n, width, raw: Vec::new() }
    }

    /// Builds the five buffers for this invocation's batch, leaving
    /// `Idle` for `BuffersBuilt`.
    pub fn build_buffers(&mut self, batch: &Input) -> (plan: BufferPlan)
        requires
            old(self).phase == Phase::Idle,
            old(self).wf(),
            batch.wf(),
            batch.n == old(self).n,
            batch.width == old(self).width,
            4 * (batch.n * batch.width) <= u64::MAX,
        ensures
            final(self).phase == Phase::BuffersBuilt,
            final(self).n == old(self).n,
            final(self).width == old(self).width,
            final(self).wf(),
            plan_matches(plan, *batch),
    {
        let plan = plan_buffers(batch);
        self.phase = Phase::BuffersBuilt;
        plan
    }

    /// Records that the one command sequence — exactly one compute
    /// dispatch over the four bound buffers, then one copy from the
    /// output buffer to the staging buffer — was submitted as a unit.
    pub fn record_submitted(&mut self)
        requires
            old(self).phase == Phase::BuffersBuilt,
            old(self).wf(),
        ensures
            final(self).phase == Phase::Submitted,
            final(self).n == old(self).n,
            final(self).width == old(self).width,
            final(self).wf(),
    {
        self.phase = Phase::Submitted;
    }

    /// Records that the asynchronous read-mapping of the staging buffer
    /// was requested, with its one-shot completion signal installed.
    pub fn record_map_requested(&mut self)
        requires
            old(self).phase == Phase::Submitted,
            old(self).wf(),
        ensures
            final(self).phase == Phase::MapRequested,
            final(self).n == old(self).n,
            final(self).width == old(self).width,
            final(self).wf(),
    {
        self.phase = Phase::MapRequested;
    }

    /// Takes the bytes copied out of the mapped staging buffer, before it
    /// was unmapped. A mapping that produced the wrong number of bytes is
    /// a fatal `MapFailure`: a partially read result is worse than none,
    /// and the controller then refuses to go on.
    pub fn record_map_complete(&mut self, bytes: Vec<u8>) -> (r: Result<(), RunError>)
        requires
            old(self).phase == Phase::MapRequested,
            old(self).wf(),
        ensures
            final(self).n == old(self).n,
            final(self).width == old(self).width,
            final(self).wf(),
            match r {
                Ok(()) => {
                    &&& bytes@.len() == old(self).byte_len()
                    &&& final(self).phase == Phase::MapComplete
                    &&& final(self).raw@ == bytes@
                },
                Err(e) => {
                    &&& e == RunError::MapFailure
                    &&& bytes@.len() != old(self).byte_len()
                    &&& final(self).phase == old(self).phase
                },
            },
    {
        let expected_words = self.n * self.width;
        if bytes.len() / 4 == expected_words && bytes.len() % 4 == 0 {
            proof {
                vstd::arithmetic::div_mod::lemma_fundamental_div_mod(bytes@.len() as int, 4);
            }
            self.raw = bytes;
            self.phase = Phase::MapComplete;
            Ok(())
        } else {
            proof {
                if bytes@.len() == self.byte_len() {
                    lemma_mul_is_commutative(4, (self.n * self.width) as int);
                    lemma_div_multiples_vanish((self.n * self.width) as int, 4);
                    lemma_mod_multiples_basic((self.n * self.width) as int, 4);
                }
            }
            Err(RunError::MapFailure)
        }
    }

    /// Decodes the raw bytes, byte for byte, into the index-aligned
    /// result batch of this invocation.
    pub fn decode_results(&mut self) -> (out: Output)
        requires
            old(self).phase == Phase::MapComplete,
            old(self).wf(),
        ensures
            final(self).phase == Phase::Decoded,
            final(self).n == old(self).n,
            final(self).width == old(self).width,
            final(self).raw@ == old(self).raw@,
            final(self).wf(),
            out.values@.len() == old(self).n * old(self).width,
            limbs_to_bytes_spec(out.values@) == old(self).raw@,
    {
        proof {
            lemma_mul_is_commutative(4, (self.n * self.width) as int);
            lemma_mod_multiples_basic((self.n * self.width) as int, 4);
            lemma_div_multiples_vanish((self.n * self.width) as int, 4);
        }
        let values = bytes_to_limbs(&self.raw);
        self.phase = Phase::Decoded;
        Output { values }
    }

    /// Marks every buffer of the invocation freed. The controller is
    /// spent: a new invocation takes a new controller.
    pub fn release(&mut self)
        requires
            old(self).phase == Phase::Decoded,
            old(self).wf(),
        ensures
            final(self).phase == Phase::Released,
            final(self).n == old(self).n,
            final(self).width == old(self).width,
            final(self).wf(),
    {
        self.phase = Phase::Released;
    }
}

/// The one-shot completion signal of the map-for-read rendezvous: the
/// runtime's completion callback resolves it, and the contract of the
/// device runtime promises at most one invocation, so resolving twice is
/// refused rather than silently absorbed.
pub struct CompletionSlot {
    /// Whether the signal has fired.
    pub resolved: bool,
}

impl CompletionSlot {
    /// A fresh, unresolved slot.
    pub fn new() -> (r: Self)
        ensures
            !r.resolved,
    {
        CompletionSlot { resolved: false }
    }

    /// Fires the signal. The first call succeeds; any further call
    /// reports the protocol violation instead of absorbing it.
    pub fn resolve(&mut self) -> (r: Result<(), RunError>)
        ensures
            final(self).resolved,
            match r {
                Ok(()) => !old(self).resolved,
                Err(e) => old(self).resolved && e == RunError::MapFailure,
            },
    {
        if self.resolved {
            Err(RunError::MapFailure)
        } else {
            self.resolved = true;
            Ok(())
        }
    }
}

} // verus!
