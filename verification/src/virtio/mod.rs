//! Constants of the virtio protocol.

use vstd::prelude::*;

pub mod blk;
pub mod blk_status;
pub mod desc_flags;
pub mod device_status;
pub mod features;
pub mod mmio;

verus! {

/// Device type of a block device.
pub const VIRTIO_ID_BLOCK: u32 = 2;

} // verus!
