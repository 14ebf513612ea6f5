//! Laws of the register file.

use vstd::arithmetic::div_mod::lemma_mod_mod;
use vstd::prelude::*;

use crate::bytes::{lemma_u64_round_trip, u32_bytes, u64_bytes};
use crate::laws::numbers::law_places;
use crate::queue::VirtQueue;
use crate::registers::{
    config_space, config_value, offered_features, register, stored, truncated, with_high_half,
    AccessWidth, VirtioBlkState, CAPACITY_UNIT, MAGIC,
};
use crate::virtio::mmio;

verus! {

/// What is written to the status register is read back, by a 32-bit access and
/// by a wider one, and in its low part by a narrower one.
pub proof fn law_status_read_back(state: VirtioBlkState, value: u32)
    ensures
        stored(state, mmio::STATUS, value) matches Some(after) && register(after, mmio::STATUS)
            == Some(value as usize),
        truncated(value as usize, AccessWidth::Qword) == value,
        truncated(value as usize, AccessWidth::Dword) == value,
        truncated(value as usize, AccessWidth::Word) == value % 0x1_0000,
        truncated(value as usize, AccessWidth::Byte) == value % 0x100,
{
}

/// After power-on everything is zero, and the queue is not ready.
pub proof fn law_power_on()
    ensures
        ({
            let state = VirtioBlkState::initial();
            &&& state.device_features_sel == 0
            &&& state.driver_features_sel == 0
            &&& state.queue_sel == 0
            &&& state.queue_num == 0
            &&& state.device_status == 0
            &&& state.interrupt_status == 0
            &&& state.queue.size == 0
            &&& state.queue.desc == 0
            &&& state.queue.avail == 0
            &&& state.queue.used == 0
            &&& !state.queue.ready
            &&& state.last_avail_idx == 0
        }),
{
}

/// Nine offsets below the configuration space can be read. Five of them read the
/// same in every state.
pub proof fn law_readable(state: VirtioBlkState, offset: usize)
    ensures
        register(state, 0x00) == Some(0x7472_6976usize),
        register(state, 0x04) == Some(2usize),
        register(state, 0x08) == Some(2usize),
        register(state, 0x0c) == Some(0usize),
        register(state, 0x34) == Some(256usize),
        register(state, 0x10) == Some(
            if state.device_features_sel == 0 {
                0x256usize
            } else {
                1usize
            },
        ),
        register(state, 0x44) == Some(
            if state.queue.ready {
                1usize
            } else {
                0usize
            },
        ),
        register(state, 0x60) == Some(state.interrupt_status as usize),
        register(state, 0x70) == Some(state.device_status as usize),
        register(state, offset) is Some <==> offset == 0x00 || offset == 0x04 || offset == 0x08
            || offset == 0x0c || offset == 0x10 || offset == 0x34 || offset == 0x44 || offset
            == 0x60 || offset == 0x70,
{
}

/// Fourteen offsets below the configuration space can be written, and all of the
/// configuration space.
pub proof fn law_writable(state: VirtioBlkState, offset: usize, value: u32)
    ensures
        stored(state, offset, value) is Some <==> offset == 0x14 || offset == 0x20 || offset == 0x24
            || offset == 0x30 || offset == 0x38 || offset == 0x44 || offset == 0x64 || offset
            == 0x70 || offset == 0x80 || offset == 0x84 || offset == 0x90 || offset == 0x94
            || offset == 0xa0 || offset == 0xa4 || offset >= 0x100,
{
}

/// The driver sets the size of the queue: it is taken over as it is, as far as
/// 16 bits hold it, and nothing else changes.
pub proof fn law_queue_size(state: VirtioBlkState, value: u32)
    ensures
        stored(state, 0x38, value) matches Some(after) && {
            &&& after.queue.size == value % 0x1_0000
            &&& after.queue_num == value % 0x1_0000
            &&& after == (VirtioBlkState {
                queue_num: after.queue_num,
                queue: VirtQueue { size: after.queue.size, ..state.queue },
                ..state
            })
        },
{
    assert(value as u16 == value % 0x1_0000) by (bit_vector);
}

/// The driver sets the low half of an address of the queue: the address is that
/// half alone, and nothing else changes.
pub proof fn law_low_halves(state: VirtioBlkState, value: u32)
    ensures
        stored(state, 0x80, value) matches Some(after) && after.queue.desc == value && after == (
        VirtioBlkState { queue: VirtQueue { desc: after.queue.desc, ..state.queue }, ..state }),
        stored(state, 0x90, value) matches Some(after) && after.queue.avail == value && after == (
        VirtioBlkState { queue: VirtQueue { avail: after.queue.avail, ..state.queue }, ..state }),
        stored(state, 0xa0, value) matches Some(after) && after.queue.used == value && after == (
        VirtioBlkState { queue: VirtQueue { used: after.queue.used, ..state.queue }, ..state }),
{
}

/// An address keeps its low half when its high half is set, and where addresses
/// have 64 bits the bits of the high half that were set before stay set.
pub open spec fn gains_high_half(before: usize, after: usize, high: u32) -> bool {
    &&& after as int % 0x1_0000_0000 == before as int % 0x1_0000_0000
    &&& usize::BITS == 64 ==> after as u64 >> 32 == (before as u64 >> 32) | high as u64
}

proof fn lemma_gains_high_half(before: usize, high: u32)
    ensures
        gains_high_half(before, with_high_half(before, high), high),
{
    let after = with_high_half(before, high);
    let wide = (before as u64) | ((high as u64) << 32);
    let old = before as u64;
    assert(wide % 0x1_0000_0000 == old % 0x1_0000_0000) by (bit_vector)
        requires
            wide == old | ((high as u64) << 32),
    ;
    assert(wide >> 32 == (old >> 32) | high as u64) by (bit_vector)
        requires
            wide == old | ((high as u64) << 32),
    ;
    assert(after as u64 % 0x1_0000_0000 == wide % 0x1_0000_0000) by (bit_vector)
        requires
            after == wide as usize,
    ;
}

/// The driver sets the high half of an address of the queue, and nothing else
/// changes.
pub proof fn law_high_halves(state: VirtioBlkState, value: u32)
    ensures
        stored(state, 0x84, value) matches Some(after) && gains_high_half(
            state.queue.desc,
            after.queue.desc,
            value,
        ) && after == (VirtioBlkState {
            queue: VirtQueue { desc: after.queue.desc, ..state.queue },
            ..state
        }),
        stored(state, 0x94, value) matches Some(after) && gains_high_half(
            state.queue.avail,
            after.queue.avail,
            value,
        ) && after == (VirtioBlkState {
            queue: VirtQueue { avail: after.queue.avail, ..state.queue },
            ..state
        }),
        stored(state, 0xa4, value) matches Some(after) && gains_high_half(
            state.queue.used,
            after.queue.used,
            value,
        ) && after == (VirtioBlkState {
            queue: VirtQueue { used: after.queue.used, ..state.queue },
            ..state
        }),
{
    lemma_gains_high_half(state.queue.desc, value);
    lemma_gains_high_half(state.queue.avail, value);
    lemma_gains_high_half(state.queue.used, value);
}

/// The driver marks the queue as ready, or as not ready, and nothing else
/// changes.
pub proof fn law_ready(state: VirtioBlkState, value: u32)
    ensures
        stored(state, 0x44, value) matches Some(after) && (after.queue.ready <==> value != 0)
            && after == (VirtioBlkState {
            queue: VirtQueue { ready: after.queue.ready, ..state.queue },
            ..state
        }),
{
}

/// The selectors, the status and the pending interrupts each change alone, and
/// the features that the driver accepts change nothing.
pub proof fn law_single_fields(state: VirtioBlkState, value: u32)
    ensures
        stored(state, 0x14, value) matches Some(after) && after.device_features_sel == value
            && after == (VirtioBlkState { device_features_sel: after.device_features_sel, ..state }),
        stored(state, 0x24, value) matches Some(after) && after.driver_features_sel == value
            && after == (VirtioBlkState { driver_features_sel: after.driver_features_sel, ..state }),
        stored(state, 0x30, value) matches Some(after) && after.queue_sel == value % 0x1_0000
            && after == (VirtioBlkState { queue_sel: after.queue_sel, ..state }),
        stored(state, 0x70, value) matches Some(after) && after.device_status == value && after == (
        VirtioBlkState { device_status: after.device_status, ..state }),
        stored(state, 0x64, value) matches Some(after) && after == (VirtioBlkState {
            interrupt_status: after.interrupt_status,
            ..state
        }),
        stored(state, 0x20, value) == Some(state),
{
    assert(value as u16 == value % 0x1_0000) by (bit_vector);
}

/// After an acknowledgement an interrupt is pending exactly if it was pending
/// before and has not been acknowledged.
pub proof fn law_acknowledged_bits(state: VirtioBlkState, acknowledged: u32, bit: u32)
    requires
        bit < 32,
    ensures
        stored(state, 0x64, acknowledged) matches Some(after) && ((after.interrupt_status >> bit)
            & 1 == 1 <==> (state.interrupt_status >> bit) & 1 == 1 && (acknowledged >> bit) & 1
            == 0),
{
    let pending = state.interrupt_status;
    assert(((pending & !acknowledged) >> bit) & 1 == 1 <==> (pending >> bit) & 1 == 1 && (
    acknowledged >> bit) & 1 == 0) by (bit_vector)
        requires
            bit < 32,
    ;
}

/// The queue reads as ready exactly after something other than zero has been
/// written to its ready register.
pub proof fn law_ready_read_back(state: VirtioBlkState, value: u32)
    ensures
        stored(state, mmio::QUEUE_READY, value) matches Some(after) && after.queue.ready == (value
            != 0) && register(after, mmio::QUEUE_READY) == Some(
            if value != 0 {
                1usize
            } else {
                0usize
            },
        ),
{
}

/// The low half of the features is shown after selecting 0 and the high half
/// after selecting 1; together they are all the features that are offered.
pub proof fn law_feature_halves(state: VirtioBlkState)
    ensures
        ({
            let low = register(
                stored(state, mmio::DEVICE_FEATURES_SEL, 0).unwrap(),
                mmio::DEVICE_FEATURES,
            );
            let high = register(
                stored(state, mmio::DEVICE_FEATURES_SEL, 1).unwrap(),
                mmio::DEVICE_FEATURES,
            );
            &&& low is Some && high is Some
            &&& low.unwrap() + 0x1_0000_0000 * high.unwrap() == offered_features()
        }),
{
}

proof fn lemma_high_half(low: u32, high: u32)
    ensures
        (low as u64) | ((high as u64) << 32) == low + 0x1_0000_0000 * high,
{
    assert((low as u64) | ((high as u64) << 32) == (low as u64) + 0x1_0000_0000 * (high as u64))
        by (bit_vector);
}

/// Writing the low half of an address of the queue and then its high half sets
/// the address, whatever it was before, and nothing else.
pub proof fn law_queue_addresses(state: VirtioBlkState, low: u32, high: u32)
    ensures
        ({
            let addr = (low + 0x1_0000_0000 * high) as u64 as usize;
            let queue = state.queue;
            let both = |low_at: usize, high_at: usize|
                stored(stored(state, low_at, low).unwrap(), high_at, high);
            &&& both(mmio::QUEUE_DESC_LOW, mmio::QUEUE_DESC_HIGH) == Some(
                VirtioBlkState {
                    queue: VirtQueue { desc: addr, ..queue },
                    ..state
                },
            )
            &&& both(mmio::QUEUE_AVAIL_LOW, mmio::QUEUE_AVAIL_HIGH) == Some(
                VirtioBlkState {
                    queue: VirtQueue { avail: addr, ..queue },
                    ..state
                },
            )
            &&& both(mmio::QUEUE_USED_LOW, mmio::QUEUE_USED_HIGH) == Some(
                VirtioBlkState {
                    queue: VirtQueue { used: addr, ..queue },
                    ..state
                },
            )
        }),
{
    lemma_high_half(low, high);
    assert(low as usize as u64 == low as u64);
}

/// Acknowledging interrupts clears the acknowledged ones and leaves the others
/// pending.
pub proof fn law_acknowledge(state: VirtioBlkState, acknowledged: u32, other: u32)
    requires
        other & acknowledged == 0,
    ensures
        stored(state, mmio::INTERRUPT_ACK, acknowledged) matches Some(after) && {
            &&& after.interrupt_status & acknowledged == 0
            &&& after.interrupt_status & other == state.interrupt_status & other
            &&& register(after, mmio::INTERRUPT_STATUS) == Some(after.interrupt_status as usize)
        },
{
    let pending = state.interrupt_status;
    assert((pending & !acknowledged) & acknowledged == 0) by (bit_vector);
    assert(other & acknowledged == 0 ==> (pending & !acknowledged) & other == pending & other)
        by (bit_vector);
}

/// A write changes what is read from at most one register: the one written, or
/// the one that it selects or acknowledges for.
pub proof fn law_writes_are_local(state: VirtioBlkState, at: usize, value: u32, offset: usize)
    requires
        stored(state, at, value) is Some,
        !(at == mmio::STATUS && offset == mmio::STATUS),
        !(at == mmio::QUEUE_READY && offset == mmio::QUEUE_READY),
        !(at == mmio::DEVICE_FEATURES_SEL && offset == mmio::DEVICE_FEATURES),
        !(at == mmio::INTERRUPT_ACK && offset == mmio::INTERRUPT_STATUS),
    ensures
        register(stored(state, at, value).unwrap(), offset) == register(state, offset),
{
}

/// The driver cannot make the device forget, or serve again, a request through
/// its registers.
pub proof fn law_writes_keep_ring_index(state: VirtioBlkState, at: usize, value: u32)
    requires
        stored(state, at, value) is Some,
    ensures
        stored(state, at, value).unwrap().last_avail_idx == state.last_avail_idx,
{
}

/// Which registers can be read, and which can be written, depends on nothing
/// but the offset. Below the configuration space only the status and the ready
/// register are both.
pub proof fn law_directions(state: VirtioBlkState, other: VirtioBlkState, at: usize, value: u32)
    ensures
        register(state, at) is Some == register(other, at) is Some,
        stored(state, at, value) is Some == stored(other, at, 0) is Some,
        register(state, at) is Some && stored(state, at, value) is Some <==> at == mmio::STATUS
            || at == mmio::QUEUE_READY,
{
}

/// The driver may write anywhere in the configuration space; it changes nothing.
pub proof fn law_config_writes(state: VirtioBlkState, at: usize, value: u32)
    requires
        at >= mmio::CONFIG,
    ensures
        stored(state, at, value) == Some(state),
{
}

/// The magic value is the letters "virt".
pub proof fn law_magic(state: VirtioBlkState)
    ensures
        register(state, mmio::MAGIC_VALUE) == Some(MAGIC),
        u32_bytes(MAGIC as u32) == seq!['v' as u8, 'i' as u8, 'r' as u8, 't' as u8],
{
    assert(u32_bytes(MAGIC as u32) =~= seq!['v' as u8, 'i' as u8, 'r' as u8, 't' as u8]);
}

/// An access of n bits sees the content of a register modulo 2^n.
pub proof fn law_widths(value: usize)
    ensures
        truncated(value, AccessWidth::Byte) == value as int % 0x100,
        truncated(value, AccessWidth::Word) == value as int % 0x1_0000,
        truncated(value, AccessWidth::Dword) == value as int % 0x1_0000_0000,
        truncated(value, AccessWidth::Qword) == value,
        truncated(value, AccessWidth::Byte) == truncated(
            truncated(value, AccessWidth::Word),
            AccessWidth::Byte,
        ),
        truncated(value, AccessWidth::Word) == truncated(
            truncated(value, AccessWidth::Dword),
            AccessWidth::Word,
        ),
        truncated(value, AccessWidth::Dword) == truncated(
            truncated(value, AccessWidth::Qword),
            AccessWidth::Dword,
        ),
{
    lemma_mod_mod(value as int, 0x100, 0x100);
    lemma_mod_mod(value as int, 0x1_0000, 0x1_0000);
}

/// The driver learns the capacity of the disk from the configuration space, at
/// once or in two halves.
pub proof fn law_capacity(disk_size: u64)
    ensures
        config_value(disk_size, 0, AccessWidth::Qword) == (disk_size / CAPACITY_UNIT) as usize,
        config_value(disk_size, 0, AccessWidth::Dword) + 0x1_0000_0000 * config_value(
            disk_size,
            4,
            AccessWidth::Dword,
        ) == disk_size / CAPACITY_UNIT,
{
    let capacity = disk_size / CAPACITY_UNIT;
    let space = config_space(disk_size);
    assert(space.subrange(0, 8) =~= u64_bytes(capacity));
    lemma_u64_round_trip(space, 0, capacity);
}

/// Behind the capacity the configuration space holds nothing but zero, and so
/// does what lies behind the configuration space.
pub proof fn law_config_rest(disk_size: u64, at: usize, width: AccessWidth)
    requires
        at >= 8,
    ensures
        config_value(disk_size, at, width) == 0,
{
    let space = config_space(disk_size);
    assert(forall|i: int| 8 <= i < 32 ==> space[i] == 0);
}

/// Byte by byte the configuration space holds the number of 512-byte units in
/// the disk, and a wider read is made up of the bytes that it covers. A read that
/// reaches behind the 32 bytes of the configuration space gives zero.
pub proof fn law_config_bytes(disk_size: u64, at: usize)
    ensures
        ({
            let byte = |i: int| config_value(disk_size, i as usize, AccessWidth::Byte);
            &&& disk_size / 512 == byte(0) + 0x100 * byte(1) + 0x1_0000 * byte(2) + 0x100_0000
                * byte(3) + 0x1_0000_0000 * byte(4) + 0x100_0000_0000 * byte(5)
                + 0x1_0000_0000_0000 * byte(6) + 0x100_0000_0000_0000 * byte(7)
            &&& byte(at as int) < 0x100
            &&& at >= 32 ==> byte(at as int) == 0
            &&& config_value(disk_size, at, AccessWidth::Word) == if at + 2 <= 32 {
                byte(at as int) + 0x100 * byte(at + 1)
            } else {
                0
            }
            &&& config_value(disk_size, at, AccessWidth::Dword) == if at + 4 <= 32 {
                byte(at as int) + 0x100 * byte(at + 1) + 0x1_0000 * byte(at + 2) + 0x100_0000
                    * byte(at + 3)
            } else {
                0
            }
            &&& usize::BITS == 64 ==> config_value(disk_size, at, AccessWidth::Qword) == if at + 8
                <= 32 {
                byte(at as int) + 0x100 * byte(at + 1) + 0x1_0000 * byte(at + 2) + 0x100_0000
                    * byte(at + 3) + 0x1_0000_0000 * byte(at + 4) + 0x100_0000_0000 * byte(at + 5)
                    + 0x1_0000_0000_0000 * byte(at + 6) + 0x100_0000_0000_0000 * byte(at + 7)
            } else {
                0
            }
        }),
{
    let space = config_space(disk_size);
    let capacity = disk_size / CAPACITY_UNIT;
    assert(space.subrange(0, 8) =~= u64_bytes(capacity));
    lemma_u64_round_trip(space, 0, capacity);
    law_places(space, 0);
    law_places(space, at as int);
}

} // verus!
