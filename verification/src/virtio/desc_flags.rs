//! Flags of a virtqueue descriptor.

use vstd::prelude::*;

verus! {

/// The descriptor's `next` field names a further descriptor.
pub const VIRTQ_DESC_F_NEXT: u16 = 1;

/// The device writes the buffer (otherwise it reads it).
pub const VIRTQ_DESC_F_WRITE: u16 = 2;

/// The buffer holds a table of descriptors.
pub const VIRTQ_DESC_F_INDIRECT: u16 = 4;

} // verus!
