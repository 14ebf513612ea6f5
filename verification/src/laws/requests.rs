//! Laws of whole requests and notifications.

use vstd::prelude::*;

use crate::backend::{read_into, written};
use crate::bytes::{
    lemma_u16_round_trip, lemma_u32_round_trip, u16_at, u16_bytes, u32_at, u32_bytes, u64_at,
};
use crate::error::BlkError;
use crate::laws::chain::law_walk;
use crate::protocol::{bumped, ring_slot, serial_part, used_elem, Wiring, USED_LEN};
use crate::queue::{descriptor_at, link, walk, VirtqDescriptor, Walk, Wanted};
use crate::registers::VirtioBlkState;
use crate::service::{
    guest_with, notification, reported, request, ring_distance, served, served_from, zeros,
    Outcome, World,
};
use crate::step::{Fault, QueueScan};
use crate::virtio::blk::{
    VIRTIO_BLK_T_FLUSH, VIRTIO_BLK_T_GET_ID, VIRTIO_BLK_T_IN, VIRTIO_BLK_T_OUT,
};
use crate::virtio::blk_status::{
    VIRTIO_BLK_S_IOERR, VIRTIO_BLK_S_OK, VIRTIO_BLK_S_UNSUPP,
};

verus! {

/// The world that an outcome leaves behind.
pub open spec fn left_behind(outcome: Outcome) -> World {
    match outcome {
        Outcome::Done(after) => after,
        Outcome::Failed(after, _) => after,
        Outcome::Stopped(after, _) => after,
    }
}

/// The buffer of a descriptor lies in guest memory.
pub open spec fn in_guest(world: World, desc: VirtqDescriptor) -> bool {
    desc.addr as usize + desc.len as usize <= world.guest.len()
}

/// The bytes in the buffer of a descriptor.
pub open spec fn buffer(world: World, desc: VirtqDescriptor) -> Seq<u8> {
    world.guest.subrange(desc.addr as usize as int, desc.addr as usize + desc.len as usize)
}

/// The descriptor table of the queue.
pub open spec fn table_of(world: World) -> Seq<u8> {
    let queue = world.state.queue;
    world.guest.subrange(queue.desc as int, queue.desc + 16 * queue.size)
}

/// Guest memory holds the descriptor table, and in it, under `head_idx`, the
/// first descriptor `head` of a request for `sector` whose header is in guest
/// memory.
pub open spec fn has_request(
    world: World,
    head_idx: u16,
    head: VirtqDescriptor,
    req_type: u32,
    sector: u64,
) -> bool {
    let queue = world.state.queue;
    &&& queue.desc + 16 * queue.size <= world.guest.len()
    &&& descriptor_at(table_of(world), head_idx) == Some(head)
    &&& in_guest(world, head)
    &&& head.len >= 16
    &&& u32_at(buffer(world, head), 0) == req_type
    &&& u64_at(buffer(world, head), 8) == sector
}

/// What becomes of the world when a request is answered with `status`.
pub open spec fn with_status(world: World, desc: VirtqDescriptor, status: u8) -> World {
    World { guest: world.guest.update(desc.addr as usize as int, status), ..world }
}

proof fn lemma_status_write(world: World, desc: VirtqDescriptor, status: u8)
    requires
        (desc.addr as usize) < world.guest.len(),
    ensures
        guest_with(world.guest, desc.addr as usize, seq![status]) == Ok::<Seq<u8>, BlkError>(
            world.guest.update(desc.addr as usize as int, status),
        ),
{
    assert(written(world.guest, desc.addr as usize as int, seq![status])
        =~= world.guest.update(desc.addr as usize as int, status));
}

/// A write request puts the data of the guest on the disk, at the byte offset
/// of its sector, and is answered with success, unless the disk may only be
/// read. Nothing else changes.
pub proof fn law_write_request(
    wiring: Wiring,
    world: World,
    head_idx: u16,
    head: VirtqDescriptor,
    data: VirtqDescriptor,
    status: VirtqDescriptor,
    sector: u64,
)
    requires
        has_request(world, head_idx, head, VIRTIO_BLK_T_OUT, sector),
        walk(table_of(world), head, Wanted::Payload { head_addr: head.addr }) == Walk::Found(data),
        walk(table_of(world), head, Wanted::Last) == Walk::Found(status),
        !wiring.readonly,
        in_guest(world, data),
        (status.addr as usize) < world.guest.len(),
        sector * wiring.block_size <= u64::MAX,
    ensures
        request(wiring, world, head_idx) == Outcome::Done(
            with_status(
                World {
                    disk: written(world.disk, sector * wiring.block_size, buffer(world, data)),
                    ..world
                },
                status,
                VIRTIO_BLK_S_OK,
            ),
        ),
{
    let after = World {
        disk: written(world.disk, sector * wiring.block_size, buffer(world, data)),
        ..world
    };
    lemma_status_write(after, status, VIRTIO_BLK_S_OK);
}

/// A read request puts the bytes of the disk, from the byte offset of its
/// sector on, into the buffer of the guest, with zeros from where the disk ends,
/// and is answered with success. Nothing else changes.
pub proof fn law_read_request(
    wiring: Wiring,
    world: World,
    head_idx: u16,
    head: VirtqDescriptor,
    data: VirtqDescriptor,
    status: VirtqDescriptor,
    sector: u64,
)
    requires
        has_request(world, head_idx, head, VIRTIO_BLK_T_IN, sector),
        walk(table_of(world), head, Wanted::Writable) == Walk::Found(data),
        walk(table_of(world), head, Wanted::Last) == Walk::Found(status),
        in_guest(world, data),
        (status.addr as usize) < world.guest.len(),
        sector * wiring.block_size <= u64::MAX,
    ensures
        request(wiring, world, head_idx) == Outcome::Done(
            with_status(
                World {
                    guest: written(
                        world.guest,
                        data.addr as usize as int,
                        read_into(
                            world.disk,
                            sector * wiring.block_size,
                            zeros(data.len as usize),
                        ),
                    ),
                    ..world
                },
                status,
                VIRTIO_BLK_S_OK,
            ),
        ),
{
    let bytes = read_into(world.disk, sector * wiring.block_size, zeros(data.len as usize));
    let after = World { guest: written(world.guest, data.addr as usize as int, bytes), ..world };
    lemma_status_write(after, status, VIRTIO_BLK_S_OK);
}

/// What a guest has written to a sector it reads back from it: after a write
/// request has been served in one world, a read request of the same length for
/// the same sector, served in any world with the disk that the write left
/// behind, fills its buffer with the bytes that were written.
pub proof fn law_round_trip(
    wiring: Wiring,
    first: World,
    write_idx: u16,
    write_head: VirtqDescriptor,
    write_data: VirtqDescriptor,
    write_status: VirtqDescriptor,
    second: World,
    read_idx: u16,
    read_head: VirtqDescriptor,
    read_data: VirtqDescriptor,
    read_status: VirtqDescriptor,
    sector: u64,
)
    requires
        has_request(first, write_idx, write_head, VIRTIO_BLK_T_OUT, sector),
        walk(table_of(first), write_head, Wanted::Payload { head_addr: write_head.addr })
            == Walk::Found(write_data),
        walk(table_of(first), write_head, Wanted::Last) == Walk::Found(write_status),
        !wiring.readonly,
        in_guest(first, write_data),
        (write_status.addr as usize) < first.guest.len(),
        request(wiring, first, write_idx) matches Outcome::Done(between) ==> second.disk
            == between.disk,
        has_request(second, read_idx, read_head, VIRTIO_BLK_T_IN, sector),
        walk(table_of(second), read_head, Wanted::Writable) == Walk::Found(read_data),
        walk(table_of(second), read_head, Wanted::Last) == Walk::Found(read_status),
        in_guest(second, read_data),
        (read_status.addr as usize) < second.guest.len(),
        !((read_data.addr as usize) <= (read_status.addr as usize) < (read_data.addr as usize)
            + (read_data.len as usize)),
        read_data.len == write_data.len,
        sector * wiring.block_size <= u64::MAX,
    ensures
        request(wiring, first, write_idx) is Done,
        request(wiring, second, read_idx) matches Outcome::Done(after) && buffer(after, read_data)
            == buffer(first, write_data),
{
    law_write_request(wiring, first, write_idx, write_head, write_data, write_status, sector);
    law_read_request(wiring, second, read_idx, read_head, read_data, read_status, sector);
    let offset = sector * wiring.block_size;
    let bytes = buffer(first, write_data);
    assert(offset >= 0) by (nonlinear_arith)
        requires
            offset == sector * wiring.block_size,
    ;
    assert(read_into(second.disk, offset, zeros(read_data.len as usize)) =~= bytes);
    let after = request(wiring, second, read_idx)->Done_0;
    assert(buffer(after, read_data) =~= bytes);
}

/// A flush request is answered with success and changes nothing else.
pub proof fn law_flush_request(
    wiring: Wiring,
    world: World,
    head_idx: u16,
    head: VirtqDescriptor,
    status: VirtqDescriptor,
    sector: u64,
)
    requires
        has_request(world, head_idx, head, VIRTIO_BLK_T_FLUSH, sector),
        walk(table_of(world), head, Wanted::Last) == Walk::Found(status),
        (status.addr as usize) < world.guest.len(),
    ensures
        request(wiring, world, head_idx) == Outcome::Done(
            with_status(world, status, VIRTIO_BLK_S_OK),
        ),
{
    lemma_status_write(world, status, VIRTIO_BLK_S_OK);
}

/// A request for the serial number puts it into the buffer of the guest, as far
/// as the buffer holds it, and is answered with success. Nothing else changes.
pub proof fn law_serial_request(
    wiring: Wiring,
    world: World,
    head_idx: u16,
    head: VirtqDescriptor,
    data: VirtqDescriptor,
    status: VirtqDescriptor,
    sector: u64,
)
    requires
        has_request(world, head_idx, head, VIRTIO_BLK_T_GET_ID, sector),
        walk(table_of(world), head, Wanted::Writable) == Walk::Found(data),
        walk(table_of(world), head, Wanted::Last) == Walk::Found(status),
        in_guest(world, data),
        (status.addr as usize) < world.guest.len(),
    ensures
        request(wiring, world, head_idx) == Outcome::Done(
            with_status(
                World {
                    guest: written(
                        world.guest,
                        data.addr as usize as int,
                        serial_part(wiring.serial, data.len),
                    ),
                    ..world
                },
                status,
                VIRTIO_BLK_S_OK,
            ),
        ),
{
    let bytes = serial_part(wiring.serial, data.len);
    let after = World { guest: written(world.guest, data.addr as usize as int, bytes), ..world };
    lemma_status_write(after, status, VIRTIO_BLK_S_OK);
}

/// Where the disk may only be read, a write request is answered with an I/O
/// error and changes nothing else.
pub proof fn law_readonly_request(
    wiring: Wiring,
    world: World,
    head_idx: u16,
    head: VirtqDescriptor,
    status: VirtqDescriptor,
    sector: u64,
)
    requires
        wiring.readonly,
        has_request(world, head_idx, head, VIRTIO_BLK_T_OUT, sector),
        walk(table_of(world), head, Wanted::Last) == Walk::Found(status),
        (status.addr as usize) < world.guest.len(),
    ensures
        request(wiring, world, head_idx) == Outcome::Done(
            with_status(world, status, VIRTIO_BLK_S_IOERR),
        ),
{
    lemma_status_write(world, status, VIRTIO_BLK_S_IOERR);
}

/// A request of any type other than read, write, flush and the serial number,
/// and a request for the serial number that has no buffer for it, is answered as
/// unsupported and changes nothing else.
pub proof fn law_unsupported_request(
    wiring: Wiring,
    world: World,
    head_idx: u16,
    head: VirtqDescriptor,
    status: VirtqDescriptor,
    req_type: u32,
    sector: u64,
)
    requires
        has_request(world, head_idx, head, req_type, sector),
        req_type != VIRTIO_BLK_T_IN,
        req_type != VIRTIO_BLK_T_OUT,
        req_type != VIRTIO_BLK_T_FLUSH,
        req_type == VIRTIO_BLK_T_GET_ID ==> walk(table_of(world), head, Wanted::Writable) is Absent,
        walk(table_of(world), head, Wanted::Last) == Walk::Found(status),
        (status.addr as usize) < world.guest.len(),
    ensures
        request(wiring, world, head_idx) == Outcome::Done(
            with_status(world, status, VIRTIO_BLK_S_UNSUPP),
        ),
{
    lemma_status_write(world, status, VIRTIO_BLK_S_UNSUPP);
}

/// A read or write request without a buffer for its data is answered with an
/// I/O error and changes nothing else.
pub proof fn law_request_without_data(
    wiring: Wiring,
    world: World,
    head_idx: u16,
    head: VirtqDescriptor,
    status: VirtqDescriptor,
    req_type: u32,
    sector: u64,
)
    requires
        has_request(world, head_idx, head, req_type, sector),
        req_type == VIRTIO_BLK_T_IN && walk(table_of(world), head, Wanted::Writable) is Absent
            || req_type == VIRTIO_BLK_T_OUT && walk(
            table_of(world),
            head,
            Wanted::Payload { head_addr: head.addr },
        ) is Absent,
        walk(table_of(world), head, Wanted::Last) == Walk::Found(status),
        (status.addr as usize) < world.guest.len(),
    ensures
        request(wiring, world, head_idx) == Outcome::Done(
            with_status(world, status, VIRTIO_BLK_S_IOERR),
        ),
{
    lemma_status_write(world, status, VIRTIO_BLK_S_IOERR);
}

/// The byte at `at` of guest memory is where a descriptor of the request that
/// starts with descriptor `head_idx` points.
pub open spec fn request_covers(world: World, head_idx: u16, at: int) -> bool {
    descriptor_at(table_of(world), head_idx) matches Some(head) && exists|k: nat|
        (#[trigger] link(table_of(world), head, k)) matches Some(desc) && covers(desc, at)
}

/// The byte at `at` is in the buffer of the descriptor, or the first byte of a
/// buffer without bytes.
pub open spec fn covers(desc: VirtqDescriptor, at: int) -> bool {
    let addr = desc.addr as usize;
    addr == at || addr <= at < addr + desc.len
}

/// Only write requests change the disk, and only where it may be written.
/// Before it is reported no request touches the registers or interrupts the
/// guest, and guest memory, the used ring among it, changes only where the
/// descriptors of the request point.
#[verifier::rlimit(30)]
pub proof fn law_requests_are_local(wiring: Wiring, world: World, head_idx: u16)
    ensures
        ({
            let after = left_behind(request(wiring, world, head_idx));
            &&& after.state == world.state
            &&& after.irqs == world.irqs
            &&& after.guest.len() == world.guest.len()
            &&& forall|at: int|
                0 <= at < world.guest.len() && !request_covers(world, head_idx, at)
                    ==> after.guest[at] == world.guest[at]
            &&& after.disk != world.disk ==> !wiring.readonly && exists|
                head: VirtqDescriptor,
                sector: u64,
            | has_request(world, head_idx, head, VIRTIO_BLK_T_OUT, sector)
        }),
{
    let after = left_behind(request(wiring, world, head_idx));
    if let Some(head) = descriptor_at(table_of(world), head_idx) {
        law_walk(table_of(world), head, Wanted::Writable);
        law_walk(table_of(world), head, Wanted::Last);
    }
    if after.disk != world.disk {
        let head = descriptor_at(table_of(world), head_idx).unwrap();
        let sector = u64_at(buffer(world, head), 8);
        assert(has_request(world, head_idx, head, VIRTIO_BLK_T_OUT, sector));
    }
}

/// A request that is reported stands in the slot of the used ring that the
/// ring's index fell on, the index has moved on by one, the interrupt is
/// pending and has been injected. The disk and the other registers are as they
/// were.
pub proof fn law_report(wiring: Wiring, world: World, head_idx: u16)
    requires
        reported(wiring, world, head_idx) is Done,
    ensures
        ({
            let after = reported(wiring, world, head_idx)->Done_0;
            let used = world.state.queue.used as int;
            let used_idx = u16_at(world.guest, used + 2);
            let slot = used + 4 + 8 * (used_idx % world.state.queue.size);
            &&& after.guest.len() == world.guest.len()
            &&& after.guest.subrange(slot, slot + 8) == used_elem(head_idx)
            &&& u32_at(after.guest, slot) == head_idx
            &&& u16_at(after.guest, used + 2) == bumped(used_idx)
            &&& forall|i: int|
                0 <= i < world.guest.len() && !(slot <= i < slot + 8) && !(used + 2 <= i < used + 4)
                    ==> after.guest[i] == world.guest[i]
            &&& after.irqs == world.irqs.push(wiring.irq)
            &&& after.disk == world.disk
            &&& after.state.interrupt_status & 1 == 1
            &&& after.state == (VirtioBlkState {
                interrupt_status: world.state.interrupt_status | 1,
                ..world.state
            })
        }),
{
    let after = reported(wiring, world, head_idx)->Done_0;
    let queue = world.state.queue;
    let used = queue.used as int;
    let header = world.guest.subrange(used, used + 4);
    let used_idx = u16_at(header, 2);
    assert(used_idx == u16_at(world.guest, used + 2));
    let slot = used + 4 + 8 * (used_idx % queue.size);
    let pending = world.state.interrupt_status;
    assert((pending | 1) & 1 == 1) by (bit_vector);
    assert(after.guest.subrange(slot, slot + 8) =~= used_elem(head_idx));
    assert(after.guest.subrange(used + 2, used + 4) =~= u16_bytes(bumped(used_idx)));
    lemma_u16_round_trip(after.guest, used + 2, bumped(used_idx));
    assert(after.guest.subrange(slot, slot + 4) =~= u32_bytes(head_idx as u32));
    lemma_u32_round_trip(after.guest, slot, head_idx as u32);
}

/// `count` interrupts of the device.
pub open spec fn interrupts(wiring: Wiring, count: nat) -> Seq<usize> {
    Seq::new(count, |i: int| wiring.irq)
}

/// The available ring of the queue.
pub open spec fn ring_of(world: World) -> Seq<u8> {
    let queue = world.state.queue;
    world.guest.subrange(queue.avail as int, queue.avail + 4 + 2 * queue.size)
}

/// The available ring lies in guest memory.
pub open spec fn has_ring(world: World) -> bool {
    world.state.queue.avail + 4 + 2 * world.state.queue.size <= world.guest.len()
}

/// Exactly one request is new in the available ring of a ready queue.
pub open spec fn one_is_new(world: World) -> bool {
    &&& world.state.queue.ready
    &&& world.state.queue.size != 0
    &&& has_ring(world)
    &&& u16_at(ring_of(world), 2) == bumped(world.state.last_avail_idx)
}

/// Index of the first descriptor of the request that is next in the available
/// ring.
pub open spec fn next_head(world: World) -> u16 {
    u16_at(ring_of(world), 4 + 2 * (world.state.last_avail_idx % world.state.queue.size))
}

/// Address behind the used ring.
pub open spec fn used_end(world: World) -> int {
    world.state.queue.used + 4 + 8 * world.state.queue.size
}

/// The used ring lies in guest memory.
pub open spec fn has_used_ring(world: World) -> bool {
    used_end(world) <= world.guest.len() && used_end(world) <= usize::MAX
}

proof fn lemma_served(wiring: Wiring, world: World, head_idx: u16)
    ensures
        ({
            let outcome = served(wiring, world, head_idx);
            let after = left_behind(outcome);
            &&& outcome is Done ==> {
                &&& after.irqs == world.irqs.push(wiring.irq)
                &&& after.state == (VirtioBlkState {
                    interrupt_status: world.state.interrupt_status | 1,
                    ..world.state
                })
            }
            &&& !(outcome is Done) ==> after.irqs == world.irqs && after.state == world.state
            &&& after.guest.len() == world.guest.len()
        }),
{
    law_requests_are_local(wiring, world, head_idx);
    if let Outcome::Done(after) = request(wiring, world, head_idx) {
        if reported(wiring, after, head_idx) is Done {
            law_report(wiring, after, head_idx);
        }
    }
}

proof fn lemma_served_from(wiring: Wiring, world: World, scan: QueueScan<Seq<u8>>)
    requires
        scan.ring.len() == 4 + 2 * scan.queue_size,
    ensures
        ({
            let outcome = served_from(wiring, world, scan);
            let after = left_behind(outcome);
            let distance = ring_distance(scan.next, scan.avail_idx);
            &&& after.state == (VirtioBlkState {
                interrupt_status: after.state.interrupt_status,
                last_avail_idx: after.state.last_avail_idx,
                ..world.state
            })
            &&& after.guest.len() == world.guest.len()
            &&& outcome is Done ==> {
                &&& after.state.last_avail_idx == scan.avail_idx
                &&& after.irqs == world.irqs + interrupts(wiring, distance)
                &&& distance > 0 ==> after.state.interrupt_status & 1 == 1
                &&& distance == 0 ==> after.state.interrupt_status == world.state.interrupt_status
            }
            &&& !(outcome is Done) ==> {
                &&& after.state.last_avail_idx == world.state.last_avail_idx
                &&& exists|count: nat|
                    count < distance && after.irqs == world.irqs + #[trigger] interrupts(
                        wiring,
                        count,
                    )
            }
        }),
    decreases ring_distance(scan.next, scan.avail_idx),
{
    let outcome = served_from(wiring, world, scan);
    let after = left_behind(outcome);
    let distance = ring_distance(scan.next, scan.avail_idx);
    if scan.next == scan.avail_idx {
        assert(after.irqs =~= world.irqs + interrupts(wiring, distance));
    } else if scan.queue_size == 0 {
        assert(after.irqs =~= world.irqs + interrupts(wiring, 0));
    } else {
        assert(ring_slot(scan.ring, scan.queue_size, scan.next) is Some);
        let head_idx = ring_slot(scan.ring, scan.queue_size, scan.next).unwrap();
        lemma_served(wiring, world, head_idx);
        match served(wiring, world, head_idx) {
            Outcome::Done(between) => {
                let rest = QueueScan { next: bumped(scan.next), ..scan };
                lemma_served_from(wiring, between, rest);
                let pending = world.state.interrupt_status;
                assert((pending | 1) & 1 == 1) by (bit_vector);
                if outcome is Done {
                    assert(after.irqs =~= world.irqs + interrupts(wiring, distance));
                } else {
                    let count = choose|count: nat|
                        count < distance - 1 && after.irqs == between.irqs
                            + #[trigger] interrupts(wiring, count);
                    assert(after.irqs =~= world.irqs + interrupts(wiring, count + 1));
                }
            },
            _ => {
                assert(after.irqs =~= world.irqs + interrupts(wiring, 0));
            },
        }
    }
}

proof fn lemma_readonly_from(wiring: Wiring, world: World, scan: QueueScan<Seq<u8>>)
    requires
        wiring.readonly,
    ensures
        left_behind(served_from(wiring, world, scan)).disk == world.disk,
    decreases ring_distance(scan.next, scan.avail_idx),
{
    if scan.next != scan.avail_idx && scan.queue_size != 0 {
        if let Some(head_idx) = ring_slot(scan.ring, scan.queue_size, scan.next) {
            law_requests_are_local(wiring, world, head_idx);
            if let Outcome::Done(after) = served(wiring, world, head_idx) {
                lemma_readonly_from(
                    wiring,
                    after,
                    QueueScan { next: bumped(scan.next), ..scan },
                );
            }
        }
    }
}

/// A disk that may only be read is the same after every notification.
pub proof fn law_readonly_disk(wiring: Wiring, world: World)
    requires
        wiring.readonly,
    ensures
        left_behind(notification(wiring, world)).disk == world.disk,
{
    lemma_readonly_from(wiring, world, scan_of(world));
}

/// A device whose queue is not ready ignores notifications.
pub proof fn law_not_ready(wiring: Wiring, world: World)
    requires
        !world.state.queue.ready,
    ensures
        notification(wiring, world) == Outcome::Done(world),
{
}

/// A notification without new requests changes nothing.
pub proof fn law_nothing_new(wiring: Wiring, world: World)
    requires
        world.state.queue.ready,
        has_ring(world),
        world.state.last_avail_idx == u16_at(ring_of(world), 2),
    ensures
        notification(wiring, world) == Outcome::Done(world),
{
}

/// A notification that is dealt with leaves the device level with the available
/// ring, and each of the requests that were new has led to one interrupt.
pub proof fn law_all_served(wiring: Wiring, world: World)
    requires
        world.state.queue.ready,
        notification(wiring, world) is Done,
    ensures
        ({
            let after = notification(wiring, world)->Done_0;
            let avail_idx = u16_at(ring_of(world), 2);
            let count = ring_distance(world.state.last_avail_idx, avail_idx);
            &&& after.state == (VirtioBlkState {
                interrupt_status: after.state.interrupt_status,
                last_avail_idx: avail_idx,
                ..world.state
            })
            &&& after.irqs == world.irqs + interrupts(wiring, count)
            &&& count > 0 ==> after.state.interrupt_status & 1 == 1
        }),
{
    lemma_served_from(wiring, world, scan_of(world));
}

/// A notification that is given up leaves the device where it was in the
/// available ring, and the request that could not be served has not led to an
/// interrupt.
pub proof fn law_given_up(wiring: Wiring, world: World)
    requires
        !(notification(wiring, world) is Done),
    ensures
        ({
            let after = left_behind(notification(wiring, world));
            &&& after.state == (VirtioBlkState {
                interrupt_status: after.state.interrupt_status,
                ..world.state
            })
            &&& exists|count: nat|
                after.irqs == world.irqs + #[trigger] interrupts(wiring, count) && (
                count == 0 || count < ring_distance(
                    world.state.last_avail_idx,
                    u16_at(ring_of(world), 2),
                ))
        }),
{
    let after = left_behind(notification(wiring, world));
    if has_ring(world) {
        lemma_served_from(wiring, world, scan_of(world));
    } else {
        assert(after.irqs =~= world.irqs + interrupts(wiring, 0));
    }
}

/// What a notification finds in the available ring.
spec fn scan_of(world: World) -> QueueScan<Seq<u8>> {
    QueueScan {
        ring: ring_of(world),
        queue_size: world.state.queue.size,
        next: world.state.last_avail_idx,
        avail_idx: u16_at(ring_of(world), 2),
    }
}

/// Notified again before the index of the available ring has moved, the device
/// has nothing to do.
pub proof fn law_served_once(wiring: Wiring, world: World)
    requires
        world.state.queue.ready,
        notification(wiring, world) matches Outcome::Done(after) && u16_at(ring_of(after), 2)
            == u16_at(ring_of(world), 2),
    ensures
        ({
            let after = notification(wiring, world)->Done_0;
            notification(wiring, after) == Outcome::Done(after)
        }),
{
    law_all_served(wiring, world);
    lemma_served_from(wiring, world, scan_of(world));
    let after = notification(wiring, world)->Done_0;
    law_nothing_new(wiring, after);
}

/// A single new request is served on its own: the outcome of the notification
/// is the outcome of serving that request, after which the device is level with
/// the available ring.
pub proof fn law_one_request(wiring: Wiring, world: World)
    requires
        one_is_new(world),
    ensures
        notification(wiring, world) == match served(wiring, world, next_head(world)) {
            Outcome::Done(after) => Outcome::Done(
                World {
                    state: VirtioBlkState {
                        last_avail_idx: bumped(world.state.last_avail_idx),
                        ..after.state
                    },
                    ..after
                },
            ),
            other => other,
        },
{
    let scan = scan_of(world);
    reveal_with_fuel(served_from, 2);
    assert(ring_slot(scan.ring, scan.queue_size, scan.next) is Some);
}

/// A request can always be reported in a used ring that lies in guest memory.
pub proof fn law_report_done(wiring: Wiring, world: World, head_idx: u16)
    requires
        world.state.queue.size != 0,
        has_used_ring(world),
    ensures
        reported(wiring, world, head_idx) is Done,
{
}

/// What a guest has written to a sector with one notification it reads back
/// with another: the buffer of the read request then holds the bytes that were
/// in the buffer of the write request. The read buffer overlaps neither the
/// used ring nor the status byte, which the device writes after it.
pub proof fn law_notified_round_trip(
    wiring: Wiring,
    first: World,
    write_head: VirtqDescriptor,
    write_data: VirtqDescriptor,
    write_status: VirtqDescriptor,
    second: World,
    read_head: VirtqDescriptor,
    read_data: VirtqDescriptor,
    read_status: VirtqDescriptor,
    sector: u64,
)
    requires
        one_is_new(first),
        has_used_ring(first),
        has_request(first, next_head(first), write_head, VIRTIO_BLK_T_OUT, sector),
        walk(table_of(first), write_head, Wanted::Payload { head_addr: write_head.addr })
            == Walk::Found(write_data),
        walk(table_of(first), write_head, Wanted::Last) == Walk::Found(write_status),
        !wiring.readonly,
        in_guest(first, write_data),
        (write_status.addr as usize) < first.guest.len(),
        notification(wiring, first) matches Outcome::Done(between) ==> second.disk == between.disk,
        one_is_new(second),
        has_used_ring(second),
        has_request(second, next_head(second), read_head, VIRTIO_BLK_T_IN, sector),
        walk(table_of(second), read_head, Wanted::Writable) == Walk::Found(read_data),
        walk(table_of(second), read_head, Wanted::Last) == Walk::Found(read_status),
        in_guest(second, read_data),
        (read_status.addr as usize) < second.guest.len(),
        !((read_data.addr as usize) <= (read_status.addr as usize) < (read_data.addr as usize)
            + (read_data.len as usize)),
        used_end(second) <= (read_data.addr as usize) || (read_data.addr as usize)
            + (read_data.len as usize) <= second.state.queue.used,
        read_data.len == write_data.len,
        sector * wiring.block_size <= u64::MAX,
    ensures
        notification(wiring, first) is Done,
        notification(wiring, second) matches Outcome::Done(after) && buffer(after, read_data)
            == buffer(first, write_data),
{
    let write_idx = next_head(first);
    law_one_request(wiring, first);
    law_write_request(wiring, first, write_idx, write_head, write_data, write_status, sector);
    let written_to = request(wiring, first, write_idx)->Done_0;
    law_report_done(wiring, written_to, write_idx);
    law_report(wiring, written_to, write_idx);

    let read_idx = next_head(second);
    law_one_request(wiring, second);
    law_round_trip(
        wiring,
        first,
        write_idx,
        write_head,
        write_data,
        write_status,
        second,
        read_idx,
        read_head,
        read_data,
        read_status,
        sector,
    );
    law_requests_are_local(wiring, second, read_idx);
    let filled = request(wiring, second, read_idx)->Done_0;
    law_report_done(wiring, filled, read_idx);
    law_report(wiring, filled, read_idx);
    let after = notification(wiring, second)->Done_0;
    assert(buffer(after, read_data) =~= buffer(filled, read_data));
}

/// Index of the available ring of the queue: its third and fourth byte.
pub open spec fn announced(world: World) -> int {
    ring_of(world)[2] + 0x100 * ring_of(world)[3]
}

/// Number of requests that are new in the available ring.
pub open spec fn new_requests(world: World) -> nat {
    ((announced(world) - world.state.last_avail_idx) % 0x1_0000) as nat
}

/// First descriptor of the new request number `i`: ring indices count modulo
/// 2^16 from where the device stopped, slots modulo the size of the queue, and a
/// slot is two bytes.
pub open spec fn new_head(world: World, i: int) -> u16 {
    let slot = ((world.state.last_avail_idx + i) % 0x1_0000) % world.state.queue.size as int;
    (ring_of(world)[4 + 2 * slot] + 0x100 * ring_of(world)[4 + 2 * slot + 1]) as u16
}

/// Requests are served one after the other, up to the first that cannot be.
pub open spec fn served_in_turn(wiring: Wiring, world: World, heads: Seq<u16>) -> Outcome
    decreases heads.len(),
{
    if heads.len() == 0 {
        Outcome::Done(world)
    } else {
        match served(wiring, world, heads[0]) {
            Outcome::Done(after) => served_in_turn(wiring, after, heads.skip(1)),
            other => other,
        }
    }
}

/// First descriptors of all new requests, in the order of the ring.
pub open spec fn new_heads(world: World) -> Seq<u16> {
    Seq::new(new_requests(world), |i: int| new_head(world, i))
}

proof fn lemma_new_head(world: World, done: int, next: u16)
    requires
        has_ring(world),
        world.state.queue.size != 0,
        0 <= done <= new_requests(world),
        next == (world.state.last_avail_idx + done) % 0x1_0000,
    ensures
        next == announced(world) <==> done == new_requests(world),
        bumped(next) == (world.state.last_avail_idx + done + 1) % 0x1_0000,
        ring_slot(ring_of(world), world.state.queue.size, next) == Some(new_head(world, done)),
{
    let size = world.state.queue.size;
    assert(0 <= (next % size) < size);
    assert(4 + 2 * (next % size) + 2 <= ring_of(world).len());
}

#[verifier::rlimit(50)]
#[verifier::spinoff_prover]
proof fn lemma_in_turn(
    wiring: Wiring,
    start: World,
    world: World,
    scan: QueueScan<Seq<u8>>,
    done: int,
)
    requires
        has_ring(start),
        start.state.queue.size != 0,
        0 <= done <= new_requests(start),
        scan.ring == ring_of(start),
        scan.queue_size == start.state.queue.size,
        scan.avail_idx == announced(start),
        scan.next == (start.state.last_avail_idx + done) % 0x1_0000,
    ensures
        served_from(wiring, world, scan) == match served_in_turn(
            wiring,
            world,
            new_heads(start).skip(done),
        ) {
            Outcome::Done(after) => Outcome::Done(
                World {
                    state: VirtioBlkState { last_avail_idx: scan.avail_idx, ..after.state },
                    ..after
                },
            ),
            other => other,
        },
    decreases new_requests(start) - done,
{
    let heads = new_heads(start).skip(done);
    lemma_new_head(start, done, scan.next);
    if done < new_requests(start) {
        let head_idx = new_head(start, done);
        assert(heads[0] == head_idx);
        assert(heads.skip(1) =~= new_heads(start).skip(done + 1));
        if let Outcome::Done(after) = served(wiring, world, head_idx) {
            let rest = QueueScan { next: bumped(scan.next), ..scan };
            lemma_in_turn(wiring, start, after, rest, done + 1);
        }
    }
}

/// A notification serves every new request once and in the order of the ring:
/// its outcome is that of serving, one after the other, the requests whose first
/// descriptors the ring names from where the device stopped. Where all of them
/// are done, the device is level with the ring.
pub proof fn law_ring_order(wiring: Wiring, world: World)
    requires
        world.state.queue.ready,
        world.state.queue.size != 0,
        has_ring(world),
    ensures
        notification(wiring, world) == match served_in_turn(wiring, world, new_heads(world)) {
            Outcome::Done(after) => Outcome::Done(
                World {
                    state: VirtioBlkState {
                        last_avail_idx: announced(world) as u16,
                        ..after.state
                    },
                    ..after
                },
            ),
            other => other,
        },
{
    lemma_in_turn(wiring, world, world, scan_of(world), 0);
    assert(new_heads(world).skip(0) =~= new_heads(world));
}

/// A queue without entries cannot have new requests, and a ring outside guest
/// memory cannot be read.
pub proof fn law_unusable_ring(wiring: Wiring, world: World)
    requires
        world.state.queue.ready,
    ensures
        !has_ring(world) ==> notification(wiring, world) == Outcome::Failed(
            world,
            BlkError::InvalidInput,
        ),
        has_ring(world) && world.state.queue.size == 0 && announced(world)
            != world.state.last_avail_idx ==> notification(wiring, world) == Outcome::Stopped(
            world,
            Fault::EmptyQueue,
        ),
{
}

/// A request is reported after it has been carried out and answered, with the
/// first descriptor under which the driver offered it; one that could not be is
/// not reported.
pub proof fn law_served_then_reported(wiring: Wiring, world: World, head_idx: u16)
    ensures
        match request(wiring, world, head_idx) {
            Outcome::Done(after) => served(wiring, world, head_idx) == reported(
                wiring,
                after,
                head_idx,
            ),
            other => served(wiring, world, head_idx) == other,
        },
{
}

/// A request whose table, first descriptor or header cannot be had is given up
/// without a trace.
pub proof fn law_request_refused(wiring: Wiring, world: World, head_idx: u16)
    requires
        ({
            let queue = world.state.queue;
            ||| queue.desc + 16 * queue.size > world.guest.len()
            ||| head_idx >= queue.size
            ||| descriptor_at(table_of(world), head_idx) matches Some(head) && (!in_guest(
                world,
                head,
            ) || head.len < 16)
        }),
    ensures
        request(wiring, world, head_idx) == Outcome::Failed(world, BlkError::InvalidInput),
{
}

/// A read or write request whose sector lies beyond 64 bits stops the device, and
/// so does one whose chain never shows a buffer for it.
pub proof fn law_request_stopped(
    wiring: Wiring,
    world: World,
    head_idx: u16,
    head: VirtqDescriptor,
    req_type: u32,
    sector: u64,
)
    requires
        has_request(world, head_idx, head, req_type, sector),
        req_type == VIRTIO_BLK_T_IN || req_type == VIRTIO_BLK_T_OUT && !wiring.readonly,
    ensures
        ({
            let wanted = if req_type == VIRTIO_BLK_T_IN {
                Wanted::Writable
            } else {
                Wanted::Payload { head_addr: head.addr }
            };
            let outcome = request(wiring, world, head_idx);
            match walk(table_of(world), head, wanted) {
                Walk::Endless => outcome == Outcome::Stopped(world, Fault::EndlessChain),
                Walk::Found(data) => {
                    &&& in_guest(world, data) && sector * wiring.block_size > u64::MAX ==> outcome
                        == Outcome::Stopped(world, Fault::SectorOutOfRange)
                    &&& !in_guest(world, data) && sector * wiring.block_size <= u64::MAX ==> outcome
                        == Outcome::Failed(world, BlkError::InvalidInput)
                },
                Walk::Absent => true,
            }
        }),
{
}

/// Every entry of the used ring reports the same length.
pub proof fn law_reported_length(wiring: Wiring, world: World, head_idx: u16)
    requires
        reported(wiring, world, head_idx) is Done,
    ensures
        ({
            let after = reported(wiring, world, head_idx)->Done_0;
            let used = world.state.queue.used as int;
            let slot = used + 4 + 8 * (u16_at(world.guest, used + 2) % world.state.queue.size);
            u32_at(after.guest, slot + 4) == 512
        }),
{
    law_report(wiring, world, head_idx);
    let after = reported(wiring, world, head_idx)->Done_0;
    let used = world.state.queue.used as int;
    let slot = used + 4 + 8 * (u16_at(world.guest, used + 2) % world.state.queue.size);
    let elem = after.guest.subrange(slot, slot + 8);
    assert(after.guest.subrange(slot + 4, slot + 8) =~= elem.subrange(4, 8));
    assert(elem.subrange(4, 8) =~= u32_bytes(USED_LEN));
    lemma_u32_round_trip(after.guest, slot + 4, USED_LEN);
}

} // verus!
