//! Host-side verification harness for a fixed-width multi-precision
//! arithmetic compute kernel.
//!
//! The library covers the host/device data-marshalling protocol: the
//! little-endian 32-bit limb encoding of big integers, the byte layout of
//! the device-visible buffers, the dispatch/readback state machine, and the
//! unbounded-precision reference oracle with its exhaustive comparator.

use vstd::prelude::*;

pub mod batch;
pub mod bignum;
pub mod limbs;
pub mod oracle;
pub mod protocol;
pub mod reduction;

verus! {

/// Fatal failures of one verification run.
///
/// Numeric mismatches are not errors: the comparator collects them into a
/// report instead of aborting.
#[derive(Clone, Copy, Debug, PartialEq, Eq, Structural)]
pub enum RunError {
    /// A value needed more limbs than the configured width.
    EncodingOverflow,
    /// No usable compute device could be obtained.
    DeviceAcquisitionFailure,
    /// Mapping the staging buffer for readback failed.
    MapFailure,
}

} // verus!
