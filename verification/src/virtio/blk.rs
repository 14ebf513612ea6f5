//! Request types of a block device.

use vstd::prelude::*;

verus! {

/// Read from the disk.
pub const VIRTIO_BLK_T_IN: u32 = 0;

/// Write to the disk.
pub const VIRTIO_BLK_T_OUT: u32 = 1;

/// Flush the disk's caches.
pub const VIRTIO_BLK_T_FLUSH: u32 = 4;

/// Ask for the device's identity string.
pub const VIRTIO_BLK_T_GET_ID: u32 = 8;

} // verus!
