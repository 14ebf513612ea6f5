//! Status bytes that answer a block request.

use vstd::prelude::*;

verus! {

/// The request was carried out.
pub const VIRTIO_BLK_S_OK: u8 = 0;

/// The request could not be carried out.
pub const VIRTIO_BLK_S_IOERR: u8 = 1;

/// The device does not support the request.
pub const VIRTIO_BLK_S_UNSUPP: u8 = 2;

} // verus!
