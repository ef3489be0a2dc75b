//! Compute-pipeline descriptions: which storage buffers a kernel binds, and
//! with what access, as plain data that the device layer realizes.

use vstd::prelude::*;

verus! {

/// Describes one storage buffer bound to a compute kernel.
#[derive(Clone, Copy, Debug)]
pub struct BufferDesc {
    pub read_only: bool,
}

/// Byte stride of one particle in a storage buffer: four 3-vectors, each in a
/// 16-byte-aligned lane, with the inverse mass packed after the last.
pub const PARTICLE_STRIDE: u64 = 64;

/// Byte stride of one distance constraint: two indices, rest separation,
/// compliance.
pub const DISTANCE_C_STRIDE: u64 = 16;

/// Byte stride of one volume constraint: four indices, rest volume,
/// compliance.
pub const TET_C_STRIDE: u64 = 24;

/// Byte stride of one per-particle accumulator: the counter padded to the
/// slot alignment, then the slot array of 16-byte lanes.
pub const ACC_STRIDE: u64 = 1040;

/// Byte size of the sim-params uniform: substep size and relaxation weight.
pub const SIM_PARAMS_SIZE: u64 = 8;

/// Byte size of a storage buffer of `count` elements of the given stride.
pub fn buffer_size(stride: u64, count: u64) -> (r: u64)
    requires
        stride * count <= u64::MAX,
    ensures
        r == stride * count,
{
    stride * count
}

/// The storage bindings of a kernel's bind-group layout: binding `0` is the
/// sim-params uniform, and each storage buffer follows at the next binding
/// index with its access mode.
pub fn storage_bindings(buffers: &Vec<BufferDesc>) -> (r: Vec<(u32, bool)>)
    requires
        buffers@.len() < u32::MAX,
    ensures
        r@.len() == buffers@.len(),
        forall|k: int|
            0 <= k < r@.len() ==> (#[trigger] r@[k]).0 == k + 1 && r@[k].1
                == buffers@[k].read_only,
{
    let mut r: Vec<(u32, bool)> = Vec::new();
    let mut k: usize = 0;
    while k < buffers.len()
        invariant
            buffers@.len() < u32::MAX,
            k <= buffers@.len(),
            r@.len() == k,
            forall|t: int|
                0 <= t < k ==> (#[trigger] r@[t]).0 == t + 1 && r@[t].1 == buffers@[t].read_only,
        decreases buffers@.len() - k,
    {
        r.push(((k + 1) as u32, buffers[k].read_only));
        k = k + 1;
    }
    r
}

} // verus!
