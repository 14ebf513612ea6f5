//! The register file that the driver sees.

use vstd::prelude::*;

use crate::bytes::{push_u64, read_u16, read_u32, read_u64, u16_at, u32_at, u64_at, u64_bytes};
use crate::queue::VirtQueue;
use crate::virtio::features::{
    VIRTIO_BLK_F_BLK_SIZE, VIRTIO_BLK_F_FLUSH, VIRTIO_BLK_F_GEOMETRY, VIRTIO_BLK_F_SEG_MAX,
    VIRTIO_BLK_F_SIZE_MAX, VIRTIO_F_VERSION_1,
};
use crate::virtio::mmio;
use crate::virtio::VIRTIO_ID_BLOCK;

verus! {

/// The letters "virt", read as a little-endian integer.
pub const MAGIC: usize = 0x7472_6976;

/// Register layout of virtio 1.0.
pub const LAYOUT_VERSION: usize = 2;

/// Queue size that the device reports as its largest.
pub const MAX_QUEUE_SIZE: usize = 256;

/// Number of bytes in the configuration space.
pub const CONFIG_SPACE_SIZE: usize = 32;

/// Unit in which the capacity of the disk is reported.
pub const CAPACITY_UNIT: u64 = 512;

/// Width of an access to the register window.
#[derive(Clone, Copy, Debug, PartialEq, Eq, Structural)]
pub enum AccessWidth {
    /// 8 bits.
    Byte,
    /// 16 bits.
    Word,
    /// 32 bits.
    Dword,
    /// 64 bits.
    Qword,
}

/// Everything the driver can change through the register window, and how far
/// the device has come in the available ring.
#[derive(Clone, Copy, Debug, PartialEq, Eq, Structural)]
pub struct VirtioBlkState {
    /// Which half of the device's features is shown (0: low, otherwise high).
    pub device_features_sel: u32,
    /// Which half of the driver's features is written.
    pub driver_features_sel: u32,
    /// Selected queue.
    pub queue_sel: u16,
    /// Queue size as last written.
    pub queue_num: u16,
    /// Device status bits.
    pub device_status: u32,
    /// Pending interrupts.
    pub interrupt_status: u32,
    /// The queue.
    pub queue: VirtQueue,
    /// Available ring index up to which requests have been served.
    pub last_avail_idx: u16,
}

impl VirtioBlkState {
    /// The state after power-on.
    pub open spec fn initial() -> VirtioBlkState {
        VirtioBlkState {
            device_features_sel: 0,
            driver_features_sel: 0,
            queue_sel: 0,
            queue_num: 0,
            device_status: 0,
            interrupt_status: 0,
            queue: VirtQueue { size: 0, desc: 0, avail: 0, used: 0, ready: false },
            last_avail_idx: 0,
        }
    }

    /// The state after power-on.
    pub fn new() -> (state: Self)
        ensures
            state == VirtioBlkState::initial(),
    {
        VirtioBlkState {
            device_features_sel: 0,
            driver_features_sel: 0,
            queue_sel: 0,
            queue_num: 0,
            device_status: 0,
            interrupt_status: 0,
            queue: VirtQueue::new(),
            last_avail_idx: 0,
        }
    }
}

/// The features that the device offers.
pub open spec fn offered_features() -> u64 {
    (VIRTIO_F_VERSION_1 + VIRTIO_BLK_F_SIZE_MAX + VIRTIO_BLK_F_SEG_MAX + VIRTIO_BLK_F_GEOMETRY
        + VIRTIO_BLK_F_BLK_SIZE + VIRTIO_BLK_F_FLUSH) as u64
}

/// The features that the device offers.
pub fn get_device_features() -> (bits: u64)
    ensures
        bits == offered_features(),
        bits == 0x1_0000_0256,
{
    assert((((((0x1_0000_0000u64 | 0x2u64) | 0x4u64) | 0x10u64) | 0x40u64) | 0x200u64)
        == 0x1_0000_0256u64) by (bit_vector);
    VIRTIO_F_VERSION_1 | VIRTIO_BLK_F_SIZE_MAX | VIRTIO_BLK_F_SEG_MAX | VIRTIO_BLK_F_GEOMETRY
        | VIRTIO_BLK_F_BLK_SIZE | VIRTIO_BLK_F_FLUSH
}

/// Content of the register at `offset`; none where nothing can be read.
pub open spec fn register(state: VirtioBlkState, offset: usize) -> Option<usize> {
    if offset == mmio::MAGIC_VALUE {
        Some(MAGIC)
    } else if offset == mmio::VERSION {
        Some(LAYOUT_VERSION)
    } else if offset == mmio::DEVICE_ID {
        Some(VIRTIO_ID_BLOCK as usize)
    } else if offset == mmio::VENDOR_ID {
        Some(0)
    } else if offset == mmio::DEVICE_FEATURES {
        if state.device_features_sel == 0 {
            Some((offered_features() % 0x1_0000_0000) as usize)
        } else {
            Some((offered_features() / 0x1_0000_0000) as usize)
        }
    } else if offset == mmio::QUEUE_NUM_MAX {
        Some(MAX_QUEUE_SIZE)
    } else if offset == mmio::QUEUE_READY {
        Some(if state.queue.ready { 1 } else { 0 })
    } else if offset == mmio::INTERRUPT_STATUS {
        Some(state.interrupt_status as usize)
    } else if offset == mmio::STATUS {
        Some(state.device_status as usize)
    } else {
        None
    }
}

/// The part of `value` that an access of the given width sees.
pub open spec fn truncated(value: usize, width: AccessWidth) -> usize {
    match width {
        AccessWidth::Byte => (value % 0x100) as usize,
        AccessWidth::Word => (value % 0x1_0000) as usize,
        AccessWidth::Dword => (value as int % 0x1_0000_0000) as usize,
        AccessWidth::Qword => value,
    }
}

/// Reads the register at `offset`.
pub fn read_register(state: &VirtioBlkState, offset: usize) -> (value: Option<usize>)
    ensures
        value == register(*state, offset),
{
    let value: usize = if offset == mmio::MAGIC_VALUE {
        MAGIC
    } else if offset == mmio::VERSION {
        LAYOUT_VERSION
    } else if offset == mmio::DEVICE_ID {
        VIRTIO_ID_BLOCK as usize
    } else if offset == mmio::VENDOR_ID {
        0
    } else if offset == mmio::DEVICE_FEATURES {
        let bits: u64 = get_device_features();
        assert(bits & 0xffff_ffff == bits % 0x1_0000_0000) by (bit_vector);
        assert((bits >> 32) & 0xffff_ffff == bits / 0x1_0000_0000) by (bit_vector);
        if state.device_features_sel == 0 {
            (bits & 0xffff_ffff) as usize
        } else {
            ((bits >> 32) & 0xffff_ffff) as usize
        }
    } else if offset == mmio::QUEUE_NUM_MAX {
        MAX_QUEUE_SIZE
    } else if offset == mmio::QUEUE_READY {
        if state.queue.ready {
            1
        } else {
            0
        }
    } else if offset == mmio::INTERRUPT_STATUS {
        state.interrupt_status as usize
    } else if offset == mmio::STATUS {
        state.device_status as usize
    } else {
        return None;
    };
    Some(value)
}

/// Cuts `value` to the given width.
pub fn truncate_value(value: usize, width: AccessWidth) -> (cut: usize)
    ensures
        cut == truncated(value, width),
{
    match width {
        AccessWidth::Byte => {
            assert(value & 0xff == value % 0x100) by (bit_vector);
            value & 0xff
        },
        AccessWidth::Word => {
            assert(value & 0xffff == value % 0x1_0000) by (bit_vector);
            value & 0xffff
        },
        AccessWidth::Dword => {
            assert(value & 0xffff_ffff == value as u64 % 0x1_0000_0000) by (bit_vector);
            value & 0xffff_ffff
        },
        AccessWidth::Qword => value,
    }
}

/// The configuration space of a disk of `disk_size` bytes: the capacity in
/// units of 512 bytes, and zero in every other field.
pub open spec fn config_space(disk_size: u64) -> Seq<u8> {
    u64_bytes(disk_size / CAPACITY_UNIT) + Seq::new(24, |i: int| 0u8)
}

/// What a read of the configuration space gives: zero unless all the bytes that
/// are asked for lie inside.
pub open spec fn config_value(disk_size: u64, at: usize, width: AccessWidth) -> usize {
    let space = config_space(disk_size);
    match width {
        AccessWidth::Byte => if at < 32 {
            space[at as int] as usize
        } else {
            0
        },
        AccessWidth::Word => if at + 1 < 32 {
            u16_at(space, at as int) as usize
        } else {
            0
        },
        AccessWidth::Dword => if at + 3 < 32 {
            u32_at(space, at as int) as usize
        } else {
            0
        },
        AccessWidth::Qword => if at + 7 < 32 {
            u64_at(space, at as int) as usize
        } else {
            0
        },
    }
}

fn build_config_space(disk_size: u64) -> (space: Vec<u8>)
    ensures
        space@ == config_space(disk_size),
{
    let mut space: Vec<u8> = Vec::new();
    push_u64(&mut space, disk_size / CAPACITY_UNIT);
    let ghost head = space@;
    assert(head =~= u64_bytes(disk_size / CAPACITY_UNIT));
    while space.len() < CONFIG_SPACE_SIZE
        invariant
            8 <= space@.len() <= 32,
            head.len() == 8,
            space@ == head + Seq::new((space@.len() - 8) as nat, |i: int| 0u8),
        decreases 32 - space@.len(),
    {
        space.push(0);
    }
    space
}

/// Reads the configuration space of a disk of `disk_size` bytes.
pub fn read_config(disk_size: u64, at: usize, width: AccessWidth) -> (value: usize)
    requires
        at + 7 <= usize::MAX,
    ensures
        value == config_value(disk_size, at, width),
{
    let space = build_config_space(disk_size);
    match width {
        AccessWidth::Byte => {
            if at < space.len() {
                space[at] as usize
            } else {
                0
            }
        },
        AccessWidth::Word => {
            if at + 1 < space.len() {
                read_u16(space.as_slice(), at) as usize
            } else {
                0
            }
        },
        AccessWidth::Dword => {
            if at + 3 < space.len() {
                read_u32(space.as_slice(), at) as usize
            } else {
                0
            }
        },
        AccessWidth::Qword => {
            if at + 7 < space.len() {
                read_u64(space.as_slice(), at) as usize
            } else {
                0
            }
        },
    }
}

/// `addr` with the bits of `high` added to its upper half; those that are set
/// there already stay.
pub open spec fn with_high_half(addr: usize, high: u32) -> usize {
    ((addr as u64) | ((high as u64) << 32)) as usize
}

fn set_high_half(addr: usize, high: u32) -> (r: usize)
    ensures
        r == with_high_half(addr, high),
{
    ((addr as u64) | ((high as u64) << 32)) as usize
}

/// The state after `value` has been stored in the register at `offset`; none
/// where nothing can be stored. The configuration space accepts every value and
/// keeps what it tells of the disk.
pub open spec fn stored(state: VirtioBlkState, offset: usize, value: u32) -> Option<VirtioBlkState> {
    let queue = state.queue;
    if offset == mmio::DEVICE_FEATURES_SEL {
        Some(VirtioBlkState { device_features_sel: value, ..state })
    } else if offset == mmio::DRIVER_FEATURES {
        Some(state)
    } else if offset == mmio::DRIVER_FEATURES_SEL {
        Some(VirtioBlkState { driver_features_sel: value, ..state })
    } else if offset == mmio::QUEUE_SEL {
        Some(VirtioBlkState { queue_sel: value as u16, ..state })
    } else if offset == mmio::QUEUE_NUM {
        Some(
            VirtioBlkState {
                queue_num: value as u16,
                queue: VirtQueue { size: value as u16, ..queue },
                ..state
            },
        )
    } else if offset == mmio::QUEUE_READY {
        Some(VirtioBlkState { queue: VirtQueue { ready: value != 0, ..queue }, ..state })
    } else if offset == mmio::QUEUE_DESC_LOW {
        Some(VirtioBlkState { queue: VirtQueue { desc: value as usize, ..queue }, ..state })
    } else if offset == mmio::QUEUE_DESC_HIGH {
        Some(
            VirtioBlkState {
                queue: VirtQueue { desc: with_high_half(queue.desc, value), ..queue },
                ..state
            },
        )
    } else if offset == mmio::QUEUE_AVAIL_LOW {
        Some(VirtioBlkState { queue: VirtQueue { avail: value as usize, ..queue }, ..state })
    } else if offset == mmio::QUEUE_AVAIL_HIGH {
        Some(
            VirtioBlkState {
                queue: VirtQueue { avail: with_high_half(queue.avail, value), ..queue },
                ..state
            },
        )
    } else if offset == mmio::QUEUE_USED_LOW {
        Some(VirtioBlkState { queue: VirtQueue { used: value as usize, ..queue }, ..state })
    } else if offset == mmio::QUEUE_USED_HIGH {
        Some(
            VirtioBlkState {
                queue: VirtQueue { used: with_high_half(queue.used, value), ..queue },
                ..state
            },
        )
    } else if offset == mmio::INTERRUPT_ACK {
        Some(VirtioBlkState { interrupt_status: state.interrupt_status & !value, ..state })
    } else if offset == mmio::STATUS {
        Some(VirtioBlkState { device_status: value, ..state })
    } else if offset >= mmio::CONFIG {
        Some(state)
    } else {
        None
    }
}

/// Stores `value` in the register at `offset`; tells whether there is such a
/// register.
pub fn write_register(state: &mut VirtioBlkState, offset: usize, value: u32) -> (known: bool)
    ensures
        known == (stored(*old(state), offset, value) is Some),
        known ==> Some(*final(state)) == stored(*old(state), offset, value),
        !known ==> *final(state) == *old(state),
{
    if offset == mmio::DEVICE_FEATURES_SEL {
        state.device_features_sel = value;
    } else if offset == mmio::DRIVER_FEATURES {
    } else if offset == mmio::DRIVER_FEATURES_SEL {
        state.driver_features_sel = value;
    } else if offset == mmio::QUEUE_SEL {
        state.queue_sel = value as u16;
    } else if offset == mmio::QUEUE_NUM {
        state.queue_num = value as u16;
        state.queue.size = value as u16;
    } else if offset == mmio::QUEUE_READY {
        state.queue.ready = value != 0;
    } else if offset == mmio::QUEUE_DESC_LOW {
        state.queue.desc = value as usize;
    } else if offset == mmio::QUEUE_DESC_HIGH {
        state.queue.desc = set_high_half(state.queue.desc, value);
    } else if offset == mmio::QUEUE_AVAIL_LOW {
        state.queue.avail = value as usize;
    } else if offset == mmio::QUEUE_AVAIL_HIGH {
        state.queue.avail = set_high_half(state.queue.avail, value);
    } else if offset == mmio::QUEUE_USED_LOW {
        state.queue.used = value as usize;
    } else if offset == mmio::QUEUE_USED_HIGH {
        state.queue.used = set_high_half(state.queue.used, value);
    } else if offset == mmio::INTERRUPT_ACK {
        state.interrupt_status = state.interrupt_status & !value;
    } else if offset == mmio::STATUS {
        state.device_status = value;
    } else if offset >= mmio::CONFIG {
    } else {
        return false;
    }
    true
}

} // verus!
