//! What serving the queue comes to.
//!
//! The device proceeds in steps, between which its surroundings work for it.
//! Here those surroundings are a guest whose memory can be read and written
//! within its bounds, a disk in memory that has room for whatever is written to
//! it, and an interrupt controller that never refuses. For them the steps of a
//! whole notification add up to one function of the state before it:
//! [`notification`].

use vstd::prelude::*;

use crate::backend::{read_into, readable, written};
use crate::bytes::{u16_at, u16_bytes, u32_at, u64_at};
use crate::error::BlkError;
use crate::protocol::{
    bumped, on_backend_data, on_carried_out, on_guest_read, on_guest_write, on_header, on_irq,
    on_next_request, on_notify, on_request, on_served, on_status, ring_slot, serial_part,
    used_elem, zeroed_behind, Wiring,
};
use crate::queue::{descriptor_at, walk, VirtqDescriptor, Walk, Wanted};
use crate::registers::VirtioBlkState;
use crate::step::{Fault, QueueScan, Request, Step};
use crate::virtio::blk::{
    VIRTIO_BLK_T_FLUSH, VIRTIO_BLK_T_GET_ID, VIRTIO_BLK_T_IN, VIRTIO_BLK_T_OUT,
};
use crate::virtio::blk_status::{
    VIRTIO_BLK_S_IOERR, VIRTIO_BLK_S_OK, VIRTIO_BLK_S_UNSUPP,
};

verus! {

/// A device with its surroundings.
#[verifier::ext_equal]
pub struct World {
    /// Registers of the device.
    pub state: VirtioBlkState,
    /// Guest memory.
    pub guest: Seq<u8>,
    /// Content of the disk.
    pub disk: Seq<u8>,
    /// Interrupts injected so far.
    pub irqs: Seq<usize>,
}

/// Bytes of guest memory; outside its bounds there are none.
pub open spec fn guest_bytes(guest: Seq<u8>, addr: usize, len: usize) -> Result<
    Seq<u8>,
    BlkError,
> {
    if addr + len <= guest.len() {
        Ok(guest.subrange(addr as int, addr + len))
    } else {
        Err(BlkError::InvalidInput)
    }
}

/// Guest memory after `data` has been put at `addr`; nothing can be put outside
/// its bounds.
pub open spec fn guest_with(guest: Seq<u8>, addr: usize, data: Seq<u8>) -> Result<
    Seq<u8>,
    BlkError,
> {
    if addr + data.len() <= guest.len() {
        Ok(written(guest, addr as int, data))
    } else {
        Err(BlkError::InvalidInput)
    }
}

/// Zero bytes.
pub open spec fn zeros(len: usize) -> Seq<u8> {
    Seq::new(len as nat, |i: int| 0u8)
}

/// The world after one piece of outside work and the device's reaction to it,
/// and what the device wants next. Nothing happens after the end.
pub open spec fn turn(wiring: Wiring, world: World, step: Step<Seq<u8>>) -> (World, Step<Seq<u8>>) {
    match step {
        Step::ReadGuest { addr, len, then } => {
            let (state, next) = on_guest_read(
                wiring,
                world.state,
                then,
                guest_bytes(world.guest, addr, len),
            );
            (World { state, ..world }, next)
        },
        Step::WriteGuest { addr, data, then } => match guest_with(world.guest, addr, data) {
            Ok(guest) => {
                let (state, next) = on_guest_write(world.state, wiring.irq, then, Ok(()));
                (World { state, guest, ..world }, next)
            },
            Err(error) => {
                let (state, next) = on_guest_write(world.state, wiring.irq, then, Err(error));
                (World { state, ..world }, next)
            },
        },
        Step::ReadBackend { offset, len, then } => {
            let count = readable(world.disk, offset as int, len as nat) as usize;
            (
                world,
                on_backend_data(
                    then,
                    read_into(world.disk, offset as int, zeros(len)),
                    Ok(count),
                ),
            )
        },
        Step::WriteBackend { offset, data, then } => {
            let count = data.len() as usize;
            (
                World { disk: written(world.disk, offset as int, data), ..world },
                on_carried_out(world.state, then, Ok::<usize, BlkError>(count)),
            )
        },
        Step::FlushBackend { then } => (
            world,
            on_carried_out(world.state, then, Ok::<(), BlkError>(())),
        ),
        Step::InjectIrq { irq, then } => {
            let (state, next) = on_irq(world.state, then, Ok(()));
            (World { state, irqs: world.irqs.push(irq), ..world }, next)
        },
        Step::Finish { result } => (world, step),
        Step::Fault { fault } => (world, step),
    }
}

/// What `n` turns lead to.
pub open spec fn run(wiring: Wiring, world: World, step: Step<Seq<u8>>, n: nat) -> (
    World,
    Step<Seq<u8>>,
)
    decreases n,
{
    if n == 0 {
        (world, step)
    } else {
        let (after, next) = turn(wiring, world, step);
        run(wiring, after, next, (n - 1) as nat)
    }
}

/// What becomes of the world when the device does something.
pub enum Outcome {
    /// It is done.
    Done(World),
    /// It has been given up with an error.
    Failed(World, BlkError),
    /// The device cannot go on.
    Stopped(World, Fault),
}

/// What becomes of the world when a request is carried out.
pub enum Carried {
    /// The request has been carried out as the status tells.
    Status(World, u8),
    /// It has been given up with an error.
    Failed(World, BlkError),
    /// The device cannot go on.
    Stopped(World, Fault),
}

/// A read request: the disk's bytes go to the first buffer that the device may
/// write, with zeros from where the disk ends.
pub open spec fn read_request(
    wiring: Wiring,
    world: World,
    table: Seq<u8>,
    head: VirtqDescriptor,
    sector: u64,
) -> Carried {
    match walk(table, head, Wanted::Writable) {
        Walk::Endless => Carried::Stopped(world, Fault::EndlessChain),
        Walk::Absent => Carried::Status(world, VIRTIO_BLK_S_IOERR),
        Walk::Found(desc) => {
            let offset = sector * wiring.block_size;
            if offset > u64::MAX {
                Carried::Stopped(world, Fault::SectorOutOfRange)
            } else {
                match guest_with(
                    world.guest,
                    desc.addr as usize,
                    read_into(world.disk, offset, zeros(desc.len as usize)),
                ) {
                    Ok(guest) => Carried::Status(World { guest, ..world }, VIRTIO_BLK_S_OK),
                    Err(error) => Carried::Failed(world, error),
                }
            }
        },
    }
}

/// A request for the serial number: it goes to the first buffer that the device
/// may write, as far as the buffer holds it. Without such a buffer the request is
/// not supported.
pub open spec fn id_request(
    wiring: Wiring,
    world: World,
    table: Seq<u8>,
    head: VirtqDescriptor,
) -> Carried {
    match walk(table, head, Wanted::Writable) {
        Walk::Endless => Carried::Stopped(world, Fault::EndlessChain),
        Walk::Absent => Carried::Status(world, VIRTIO_BLK_S_UNSUPP),
        Walk::Found(desc) => match guest_with(
            world.guest,
            desc.addr as usize,
            serial_part(wiring.serial, desc.len),
        ) {
            Ok(guest) => Carried::Status(World { guest, ..world }, VIRTIO_BLK_S_OK),
            Err(error) => Carried::Failed(world, error),
        },
    }
}

/// A write request: the bytes of the first buffer that the device may only read
/// and that is not the header go to the disk, unless it may only be read.
pub open spec fn write_request(
    wiring: Wiring,
    world: World,
    table: Seq<u8>,
    head: VirtqDescriptor,
    sector: u64,
) -> Carried {
    match walk(table, head, Wanted::Payload { head_addr: head.addr }) {
        Walk::Endless => Carried::Stopped(world, Fault::EndlessChain),
        Walk::Absent => Carried::Status(world, VIRTIO_BLK_S_IOERR),
        Walk::Found(desc) => match guest_bytes(
            world.guest,
            desc.addr as usize,
            desc.len as usize,
        ) {
            Err(error) => Carried::Failed(world, error),
            Ok(data) => {
                let offset = sector * wiring.block_size;
                if offset > u64::MAX {
                    Carried::Stopped(world, Fault::SectorOutOfRange)
                } else {
                    Carried::Status(
                        World { disk: written(world.disk, offset, data), ..world },
                        VIRTIO_BLK_S_OK,
                    )
                }
            },
        },
    }
}

/// A request with the given header is carried out, as far as its type is
/// supported.
pub open spec fn carried_out(
    wiring: Wiring,
    world: World,
    table: Seq<u8>,
    head: VirtqDescriptor,
    header: Seq<u8>,
) -> Carried {
    let req_type = u32_at(header, 0);
    let sector = u64_at(header, 8);
    if req_type == VIRTIO_BLK_T_IN {
        read_request(wiring, world, table, head, sector)
    } else if req_type == VIRTIO_BLK_T_OUT {
        if wiring.readonly {
            Carried::Status(world, VIRTIO_BLK_S_IOERR)
        } else {
            write_request(wiring, world, table, head, sector)
        }
    } else if req_type == VIRTIO_BLK_T_FLUSH {
        Carried::Status(world, VIRTIO_BLK_S_OK)
    } else if req_type == VIRTIO_BLK_T_GET_ID {
        id_request(wiring, world, table, head)
    } else {
        Carried::Status(world, VIRTIO_BLK_S_UNSUPP)
    }
}

/// A request is answered with a status, if its chain has a place for it.
pub open spec fn answered(world: World, table: Seq<u8>, head: VirtqDescriptor, status: u8) -> Outcome {
    match walk(table, head, Wanted::Last) {
        Walk::Endless => Outcome::Stopped(world, Fault::EndlessChain),
        Walk::Absent => Outcome::Done(world),
        Walk::Found(desc) => match guest_with(world.guest, desc.addr as usize, seq![status]) {
            Ok(guest) => Outcome::Done(World { guest, ..world }),
            Err(error) => Outcome::Failed(world, error),
        },
    }
}

/// The request that starts with descriptor `head_idx` is carried out and
/// answered.
pub open spec fn request(wiring: Wiring, world: World, head_idx: u16) -> Outcome {
    let queue = world.state.queue;
    match guest_bytes(world.guest, queue.desc, (16 * queue.size) as usize) {
        Err(error) => Outcome::Failed(world, error),
        Ok(table) => match descriptor_at(table, head_idx) {
            None => Outcome::Failed(world, BlkError::InvalidInput),
            Some(head) => match guest_bytes(world.guest, head.addr as usize, head.len as usize) {
                Err(error) => Outcome::Failed(world, error),
                Ok(header) => if header.len() < 16 {
                    Outcome::Failed(world, BlkError::InvalidInput)
                } else {
                    match carried_out(wiring, world, table, head, header) {
                        Carried::Status(after, status) => answered(after, table, head, status),
                        Carried::Failed(after, error) => Outcome::Failed(after, error),
                        Carried::Stopped(after, fault) => Outcome::Stopped(after, fault),
                    }
                },
            },
        },
    }
}

/// A served request is reported: it goes into the used ring, the ring's index
/// moves on, and the guest is interrupted.
pub open spec fn reported(wiring: Wiring, world: World, head_idx: u16) -> Outcome {
    let queue = world.state.queue;
    match guest_bytes(world.guest, queue.used, 4) {
        Err(error) => Outcome::Failed(world, error),
        Ok(header) => {
            let used_idx = u16_at(header, 2);
            let elem_addr = queue.used + 4 + 8 * (used_idx % queue.size);
            if queue.size == 0 {
                Outcome::Stopped(world, Fault::EmptyQueue)
            } else if elem_addr > usize::MAX {
                Outcome::Stopped(world, Fault::AddressOutOfRange)
            } else {
                match guest_with(world.guest, elem_addr as usize, used_elem(head_idx)) {
                    Err(error) => Outcome::Failed(world, error),
                    Ok(with_elem) => {
                        let world = World { guest: with_elem, ..world };
                        match guest_with(
                            with_elem,
                            (queue.used + 2) as usize,
                            u16_bytes(bumped(used_idx)),
                        ) {
                            Err(error) => Outcome::Failed(world, error),
                            Ok(guest) => Outcome::Done(
                                World {
                                    guest,
                                    state: VirtioBlkState {
                                        interrupt_status: world.state.interrupt_status | 1,
                                        ..world.state
                                    },
                                    irqs: world.irqs.push(wiring.irq),
                                    ..world
                                },
                            ),
                        }
                    },
                }
            }
        },
    }
}

/// A request is served: carried out, answered and reported.
pub open spec fn served(wiring: Wiring, world: World, head_idx: u16) -> Outcome {
    match request(wiring, world, head_idx) {
        Outcome::Done(after) => reported(wiring, after, head_idx),
        other => other,
    }
}

/// Number of ring indices from `next` up to `avail_idx`.
pub open spec fn ring_distance(next: u16, avail_idx: u16) -> nat {
    if next <= avail_idx {
        (avail_idx - next) as nat
    } else {
        (avail_idx - next + 0x1_0000) as nat
    }
}

/// The requests of the available ring from ring index `next` on are served one
/// after the other, up to the first that cannot be.
pub open spec fn served_from(wiring: Wiring, world: World, scan: QueueScan<Seq<u8>>) -> Outcome
    decreases ring_distance(scan.next, scan.avail_idx),
{
    let caught_up = World {
        state: VirtioBlkState { last_avail_idx: scan.avail_idx, ..world.state },
        ..world
    };
    if scan.next == scan.avail_idx {
        Outcome::Done(caught_up)
    } else if scan.queue_size == 0 {
        Outcome::Stopped(world, Fault::EmptyQueue)
    } else {
        match ring_slot(scan.ring, scan.queue_size, scan.next) {
            None => Outcome::Done(caught_up),
            Some(head_idx) => match served(wiring, world, head_idx) {
                Outcome::Done(after) => served_from(
                    wiring,
                    after,
                    QueueScan { next: bumped(scan.next), ..scan },
                ),
                other => other,
            },
        }
    }
}

/// The device is notified and serves the requests that are new in the available
/// ring.
pub open spec fn notification(wiring: Wiring, world: World) -> Outcome {
    let queue = world.state.queue;
    if !queue.ready {
        Outcome::Done(world)
    } else {
        match guest_bytes(world.guest, queue.avail, (4 + 2 * queue.size) as usize) {
            Err(error) => Outcome::Failed(world, error),
            Ok(ring) => served_from(
                wiring,
                world,
                QueueScan {
                    ring,
                    queue_size: queue.size,
                    next: world.state.last_avail_idx,
                    avail_idx: u16_at(ring, 2),
                },
            ),
        }
    }
}

/// How a run ends that has the given outcome.
pub open spec fn ending(outcome: Outcome) -> (World, Step<Seq<u8>>) {
    match outcome {
        Outcome::Done(world) => (world, Step::Finish { result: Ok(()) }),
        Outcome::Failed(world, error) => (world, Step::Finish { result: Err(error) }),
        Outcome::Stopped(world, fault) => (world, Step::Fault { fault }),
    }
}

/// Turns can be counted in two parts.
proof fn lemma_run_split(wiring: Wiring, world: World, step: Step<Seq<u8>>, m: nat, n: nat)
    ensures
        run(wiring, world, step, m + n) == ({
            let (after, next) = run(wiring, world, step, m);
            run(wiring, after, next, n)
        }),
    decreases m,
{
    if m > 0 {
        let (after, next) = turn(wiring, world, step);
        lemma_run_split(wiring, after, next, (m - 1) as nat, n);
    }
}

/// Nothing happens after the end.
proof fn lemma_run_ended(wiring: Wiring, world: World, step: Step<Seq<u8>>, n: nat)
    requires
        step is Finish || step is Fault,
    ensures
        run(wiring, world, step, n) == (world, step),
    decreases n,
{
    if n > 0 {
        lemma_run_ended(wiring, world, step, (n - 1) as nat);
    }
}

/// Continuation of a run after a request has been carried out and answered.
spec fn after_request(outcome: Outcome, scan: QueueScan<Seq<u8>>, head_idx: u16) -> (
    World,
    Step<Seq<u8>>,
) {
    match outcome {
        Outcome::Done(world) => (world, on_served(world.state, scan, head_idx)),
        other => ending(other),
    }
}

/// Continuation of a run after a request has been reported.
spec fn after_report(outcome: Outcome, scan: QueueScan<Seq<u8>>) -> (World, Step<Seq<u8>>) {
    match outcome {
        Outcome::Done(world) => {
            let (state, next) = on_next_request(
                world.state,
                QueueScan { next: bumped(scan.next), ..scan },
            );
            (World { state, ..world }, next)
        },
        other => ending(other),
    }
}

/// Answering a request takes at most one turn.
proof fn lemma_answer_run(wiring: Wiring, world: World, request: Request<Seq<u8>>, status: u8) -> (n:
    nat)
    ensures
        n <= 1,
        run(wiring, world, on_status(world.state, request, status), n) == after_request(
            answered(world, request.table, request.head, status),
            request.scan,
            request.head_idx,
        ),
{
    reveal_with_fuel(run, 2);
    match walk(request.table, request.head, Wanted::Last) {
        Walk::Found(desc) => 1,
        _ => 0,
    }
}

/// Continuation of a run after a request has been carried out.
spec fn after_carried(carried: Carried, request: Request<Seq<u8>>) -> (World, Step<Seq<u8>>) {
    match carried {
        Carried::Status(world, status) => (world, on_status(world.state, request, status)),
        Carried::Failed(world, error) => ending(Outcome::Failed(world, error)),
        Carried::Stopped(world, fault) => ending(Outcome::Stopped(world, fault)),
    }
}

/// Carrying out a request takes at most two turns.
proof fn lemma_carry_run(
    wiring: Wiring,
    world: World,
    request: Request<Seq<u8>>,
    header: Seq<u8>,
) -> (n: nat)
    requires
        header.len() >= 16,
    ensures
        n <= 2,
        run(
            wiring,
            world,
            on_header(wiring, world.state, request, Ok(header)),
            n,
        ) == after_carried(
            carried_out(wiring, world, request.table, request.head, header),
            request,
        ),
{
    reveal_with_fuel(run, 3);
    let first = on_header(wiring, world.state, request, Ok(header));
    let req_type = u32_at(header, 0);
    let sector = u64_at(header, 8);
    if req_type == VIRTIO_BLK_T_IN {
        match walk(request.table, request.head, Wanted::Writable) {
            Walk::Found(desc) => {
                let offset = sector * wiring.block_size;
                if offset > u64::MAX {
                    0
                } else {
                    let len = desc.len as usize;
                    let count = readable(world.disk, offset, len as nat);
                    let bytes = read_into(world.disk, offset, zeros(len));
                    assert(zeroed_behind(bytes, count as usize) =~= bytes);
                    let (after, next) = turn(wiring, world, first);
                    assert(next is WriteGuest);
                    2
                }
            },
            _ => 0,
        }
    } else if req_type == VIRTIO_BLK_T_OUT && wiring.readonly {
        0
    } else if req_type == VIRTIO_BLK_T_OUT {
        match walk(
            request.table,
            request.head,
            Wanted::Payload { head_addr: request.head.addr },
        ) {
            Walk::Found(desc) => {
                let reply = guest_bytes(world.guest, desc.addr as usize, desc.len as usize);
                if reply is Err || sector * wiring.block_size > u64::MAX {
                    1
                } else {
                    2
                }
            },
            _ => 0,
        }
    } else if req_type == VIRTIO_BLK_T_FLUSH {
        1
    } else if req_type == VIRTIO_BLK_T_GET_ID {
        match walk(request.table, request.head, Wanted::Writable) {
            Walk::Found(desc) => 1,
            _ => 0,
        }
    } else {
        0
    }
}

/// Serving a request up to its answer takes at most five turns.
proof fn lemma_request_run(
    wiring: Wiring,
    world: World,
    scan: QueueScan<Seq<u8>>,
    head_idx: u16,
) -> (n: nat)
    ensures
        n <= 5,
        run(wiring, world, on_request(world.state, scan, head_idx), n) == after_request(
            request(wiring, world, head_idx),
            scan,
            head_idx,
        ),
{
    reveal_with_fuel(run, 3);
    let queue = world.state.queue;
    let first = on_request(world.state, scan, head_idx);
    match guest_bytes(world.guest, queue.desc, (16 * queue.size) as usize) {
        Err(error) => 1,
        Ok(table) => match descriptor_at(table, head_idx) {
            None => 1,
            Some(head) => match guest_bytes(world.guest, head.addr as usize, head.len as usize) {
                Err(error) => 2,
                Ok(header) => {
                    if header.len() < 16 {
                        2
                    } else {
                        let request = Request { scan, head_idx, table, head };
                        let second = on_header(
                            wiring,
                            world.state,
                            request,
                            Ok(header),
                        );
                        assert(run(wiring, world, first, 2) == (world, second));
                        let m = lemma_carry_run(wiring, world, request, header);
                        lemma_run_split(wiring, world, first, 2, m);
                        match carried_out(wiring, world, table, head, header) {
                            Carried::Status(after, status) => {
                                let k = lemma_answer_run(wiring, after, request, status);
                                lemma_run_split(wiring, world, first, 2 + m, k);
                                2 + m + k
                            },
                            _ => 2 + m,
                        }
                    }
                },
            },
        },
    }
}

/// Reporting a request takes at most four turns.
proof fn lemma_report_run(
    wiring: Wiring,
    world: World,
    scan: QueueScan<Seq<u8>>,
    head_idx: u16,
) -> (n: nat)
    ensures
        1 <= n <= 4,
        run(wiring, world, on_served(world.state, scan, head_idx), n) == after_report(
            reported(wiring, world, head_idx),
            scan,
        ),
{
    reveal_with_fuel(run, 5);
    let queue = world.state.queue;
    match guest_bytes(world.guest, queue.used, 4) {
        Err(error) => 1,
        Ok(header) => {
            let used_idx = u16_at(header, 2);
            if queue.size == 0 {
                1
            } else {
                let elem_addr = queue.used + 4 + 8 * (used_idx % queue.size);
                if elem_addr > usize::MAX {
                    1
                } else {
                    match guest_with(world.guest, elem_addr as usize, used_elem(head_idx)) {
                        Err(error) => 2,
                        Ok(with_elem) => match guest_with(
                            with_elem,
                            (queue.used + 2) as usize,
                            u16_bytes(bumped(used_idx)),
                        ) {
                            Err(error) => 3,
                            Ok(guest) => 4,
                        },
                    }
                }
            }
        },
    }
}

/// Serving the rest of a notification ends as [`served_from`] tells.
proof fn lemma_scan_run(wiring: Wiring, world: World, scan: QueueScan<Seq<u8>>) -> (n: nat)
    ensures
        n <= 9 * ring_distance(scan.next, scan.avail_idx),
        ({
            let (state, step) = on_next_request(world.state, scan);
            run(wiring, World { state, ..world }, step, n) == ending(
                served_from(wiring, world, scan),
            )
        }),
    decreases ring_distance(scan.next, scan.avail_idx),
{
    if scan.next == scan.avail_idx || scan.queue_size == 0 {
        0
    } else {
        match ring_slot(scan.ring, scan.queue_size, scan.next) {
            None => 0,
            Some(head_idx) => {
                let first = on_request(world.state, scan, head_idx);
                let m = lemma_request_run(wiring, world, scan, head_idx);
                match request(wiring, world, head_idx) {
                    Outcome::Done(after) => {
                        let k = lemma_report_run(wiring, after, scan, head_idx);
                        lemma_run_split(wiring, world, first, m, k);
                        match reported(wiring, after, head_idx) {
                            Outcome::Done(then) => {
                                let rest = QueueScan { next: bumped(scan.next), ..scan };
                                let j = lemma_scan_run(wiring, then, rest);
                                lemma_run_split(wiring, world, first, m + k, j);
                                m + k + j
                            },
                            _ => m + k,
                        }
                    },
                    _ => m,
                }
            },
        }
    }
}

/// A notification is dealt with, in the end, as [`notification`] tells, and it
/// takes at most nine turns for each of the new requests and one more.
pub proof fn lemma_notification_run(wiring: Wiring, world: World, n: nat)
    requires
        n >= 1 + 9 * 0xffff,
    ensures
        run(wiring, world, on_notify(world.state), n) == ending(notification(wiring, world)),
{
    reveal_with_fuel(run, 2);
    let queue = world.state.queue;
    let first = on_notify(world.state);
    if !queue.ready {
        lemma_run_ended(wiring, world, first, n);
    } else {
        match guest_bytes(world.guest, queue.avail, (4 + 2 * queue.size) as usize) {
            Err(error) => {
                let (after, next) = run(wiring, world, first, 1);
                lemma_run_split(wiring, world, first, 1, (n - 1) as nat);
                lemma_run_ended(wiring, after, next, (n - 1) as nat);
            },
            Ok(ring) => {
                let scan = QueueScan {
                    ring,
                    queue_size: queue.size,
                    next: world.state.last_avail_idx,
                    avail_idx: u16_at(ring, 2),
                };
                let m = lemma_scan_run(wiring, world, scan);
                lemma_run_split(wiring, world, first, 1, m);
                lemma_run_split(wiring, world, first, 1 + m, (n - 1 - m) as nat);
                let (after, next) = ending(served_from(wiring, world, scan));
                lemma_run_ended(wiring, after, next, (n - 1 - m) as nat);
            },
        }
    }
}

} // verus!
