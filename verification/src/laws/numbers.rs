//! Laws of integers in byte strings, of the protocol's numbers and of ring
//! indices.

use vstd::prelude::*;

use crate::backend::SECTOR_SIZE;
use crate::bytes::{u16_at, u16_bytes, u32_at, u32_bytes, u64_at, u64_bytes};
use crate::device::DEFAULT_MEMORY_SIZE;
use crate::protocol::{bumped, REQUEST_HEADER_SIZE, RING_HEADER_SIZE, USED_LEN};
use crate::queue::DESCRIPTOR_SIZE;
use crate::registers::{CAPACITY_UNIT, CONFIG_SPACE_SIZE};
use crate::service::ring_distance;
use crate::virtio::{blk, blk_status, desc_flags, device_status, features, mmio, VIRTIO_ID_BLOCK};

verus! {

/// An integer is the sum of its bytes, each with the weight of its place: the
/// first counts once, and every further one 256 times as much as the one before.
pub proof fn law_places(s: Seq<u8>, at: int)
    ensures
        u16_at(s, at) == s[at] + 0x100 * s[at + 1],
        u32_at(s, at) == s[at] + 0x100 * s[at + 1] + 0x1_0000 * s[at + 2] + 0x100_0000 * s[at + 3],
        u64_at(s, at) == s[at] + 0x100 * s[at + 1] + 0x1_0000 * s[at + 2] + 0x100_0000 * s[at + 3]
            + 0x1_0000_0000 * s[at + 4] + 0x100_0000_0000 * s[at + 5] + 0x1_0000_0000_0000 * s[at
            + 6] + 0x100_0000_0000_0000 * s[at + 7],
{
}

/// The bytes of an integer, each with the weight of its place, add up to it.
pub proof fn law_bytes(a: u16, b: u32, c: u64)
    ensures
        ({
            let s = u16_bytes(a);
            s.len() == 2 && a == s[0] + 0x100 * s[1]
        }),
        ({
            let s = u32_bytes(b);
            s.len() == 4 && b == s[0] + 0x100 * s[1] + 0x1_0000 * s[2] + 0x100_0000 * s[3]
        }),
        ({
            let s = u64_bytes(c);
            s.len() == 8 && c == s[0] + 0x100 * s[1] + 0x1_0000 * s[2] + 0x100_0000 * s[3]
                + 0x1_0000_0000 * s[4] + 0x100_0000_0000 * s[5] + 0x1_0000_0000_0000 * s[6]
                + 0x100_0000_0000_0000 * s[7]
        }),
{
}

/// Bytes are read back from the integer that they make up.
pub proof fn law_bytes_read_back(s: Seq<u8>, at: int)
    requires
        0 <= at,
    ensures
        at + 2 <= s.len() ==> u16_bytes(u16_at(s, at)) == s.subrange(at, at + 2),
        at + 4 <= s.len() ==> u32_bytes(u32_at(s, at)) == s.subrange(at, at + 4),
        at + 8 <= s.len() ==> u64_bytes(u64_at(s, at)) == s.subrange(at, at + 8),
{
    assert(u32_at(s, at) % 0x1_0000 == u16_at(s, at));
    assert(u32_at(s, at) / 0x1_0000 == u16_at(s, at + 2));
    assert(u32_at(s, at + 4) % 0x1_0000 == u16_at(s, at + 4));
    assert(u32_at(s, at + 4) / 0x1_0000 == u16_at(s, at + 6));
    assert(u64_at(s, at) % 0x1_0000_0000 == u32_at(s, at));
    assert(u64_at(s, at) / 0x1_0000_0000 == u32_at(s, at + 4));
    if at + 2 <= s.len() {
        assert(u16_bytes(u16_at(s, at)) =~= s.subrange(at, at + 2));
    }
    if at + 4 <= s.len() {
        assert(u32_bytes(u32_at(s, at)) =~= s.subrange(at, at + 4));
    }
    if at + 8 <= s.len() {
        assert(u64_bytes(u64_at(s, at)) =~= s.subrange(at, at + 8));
    }
}

/// Ring indices count modulo 2^16, and the distance from one to another is the
/// number of steps that lead from it to the other.
pub proof fn law_ring_indices(index: u16, other: u16)
    ensures
        bumped(index) == (index + 1) % 0x1_0000,
        ring_distance(index, other) < 0x1_0000,
        (index + ring_distance(index, other)) % 0x1_0000 == other as int,
{
}

/// The numbers on which driver and device have to agree.
pub proof fn law_protocol_numbers()
    ensures
        blk::VIRTIO_BLK_T_IN == 0,
        blk::VIRTIO_BLK_T_OUT == 1,
        blk::VIRTIO_BLK_T_FLUSH == 4,
        blk::VIRTIO_BLK_T_GET_ID == 8,
        blk_status::VIRTIO_BLK_S_OK == 0,
        blk_status::VIRTIO_BLK_S_IOERR == 1,
        blk_status::VIRTIO_BLK_S_UNSUPP == 2,
        desc_flags::VIRTQ_DESC_F_NEXT == 1,
        desc_flags::VIRTQ_DESC_F_WRITE == 2,
        desc_flags::VIRTQ_DESC_F_INDIRECT == 4,
        VIRTIO_ID_BLOCK == 2,
        SECTOR_SIZE == 512,
        CAPACITY_UNIT == 512,
        CONFIG_SPACE_SIZE == 32,
        DESCRIPTOR_SIZE == 16,
        REQUEST_HEADER_SIZE == 16,
        RING_HEADER_SIZE == 4,
        USED_LEN == 512,
        DEFAULT_MEMORY_SIZE == 1024 * 1024 * 1024,
{
}

/// The bits of the device status and of the features.
pub proof fn law_protocol_bits()
    ensures
        device_status::ACKNOWLEDGE == 1,
        device_status::DRIVER == 2,
        device_status::DRIVER_OK == 4,
        device_status::FEATURES_OK == 8,
        device_status::DEVICE_NEEDS_RESET == 64,
        device_status::FAILED == 128,
        features::VIRTIO_BLK_F_SIZE_MAX == 0x2,
        features::VIRTIO_BLK_F_SEG_MAX == 0x4,
        features::VIRTIO_BLK_F_GEOMETRY == 0x10,
        features::VIRTIO_BLK_F_BLK_SIZE == 0x40,
        features::VIRTIO_BLK_F_FLUSH == 0x200,
        features::VIRTIO_F_VERSION_1 == 0x1_0000_0000,
{
}

/// Where the registers are.
pub proof fn law_register_offsets()
    ensures
        mmio::MAGIC_VALUE == 0x000,
        mmio::VERSION == 0x004,
        mmio::DEVICE_ID == 0x008,
        mmio::VENDOR_ID == 0x00c,
        mmio::DEVICE_FEATURES == 0x010,
        mmio::DEVICE_FEATURES_SEL == 0x014,
        mmio::DRIVER_FEATURES == 0x020,
        mmio::DRIVER_FEATURES_SEL == 0x024,
        mmio::QUEUE_SEL == 0x030,
        mmio::QUEUE_NUM_MAX == 0x034,
        mmio::QUEUE_NUM == 0x038,
        mmio::QUEUE_READY == 0x044,
        mmio::QUEUE_NOTIFY == 0x050,
        mmio::INTERRUPT_STATUS == 0x060,
        mmio::INTERRUPT_ACK == 0x064,
        mmio::STATUS == 0x070,
        mmio::QUEUE_DESC_LOW == 0x080,
        mmio::QUEUE_DESC_HIGH == 0x084,
        mmio::QUEUE_AVAIL_LOW == 0x090,
        mmio::QUEUE_AVAIL_HIGH == 0x094,
        mmio::QUEUE_USED_LOW == 0x0a0,
        mmio::QUEUE_USED_HIGH == 0x0a4,
        mmio::CONFIG == 0x100,
{
}

} // verus!
