//! Feature bits.

use vstd::prelude::*;

verus! {

/// Maximum segment size is reported.
pub const VIRTIO_BLK_F_SIZE_MAX: u64 = 0x2;

/// Maximum number of segments is reported.
pub const VIRTIO_BLK_F_SEG_MAX: u64 = 0x4;

/// Disk geometry is reported.
pub const VIRTIO_BLK_F_GEOMETRY: u64 = 0x10;

/// Block size is reported.
pub const VIRTIO_BLK_F_BLK_SIZE: u64 = 0x40;

/// Flush requests are supported.
pub const VIRTIO_BLK_F_FLUSH: u64 = 0x200;

/// The device follows virtio 1.0.
pub const VIRTIO_F_VERSION_1: u64 = 0x1_0000_0000;

} // verus!
