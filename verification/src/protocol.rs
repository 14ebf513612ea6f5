//! What the device does next, as a function of its state and of the reply it
//! has been waiting for.

use vstd::prelude::*;

use crate::bytes::{u16_at, u16_bytes, u32_at, u32_bytes, u64_at};
use crate::error::BlkError;
use crate::queue::{descriptor_at, walk, Walk, Wanted};
use crate::registers::VirtioBlkState;
use crate::step::{Fault, GuestRead, GuestWrite, QueueScan, ReadTarget, Request, Step};
use crate::virtio::blk::{
    VIRTIO_BLK_T_FLUSH, VIRTIO_BLK_T_GET_ID, VIRTIO_BLK_T_IN, VIRTIO_BLK_T_OUT,
};
use crate::virtio::blk_status::{
    VIRTIO_BLK_S_IOERR, VIRTIO_BLK_S_OK, VIRTIO_BLK_S_UNSUPP,
};

verus! {

/// Size of a request header.
pub const REQUEST_HEADER_SIZE: usize = 16;

/// Size of the flags and the index at the start of either ring.
pub const RING_HEADER_SIZE: usize = 4;

/// Length that every entry of the used ring reports.
pub const USED_LEN: u32 = 512;

/// What is next, and the state of the device by then.
pub type Next = (VirtioBlkState, Step<Seq<u8>>);

/// What of a device never changes.
pub struct Wiring {
    /// Interrupt that the device raises.
    pub irq: usize,
    /// Sector size of the disk.
    pub block_size: u64,
    /// Whether the guest may only read the disk.
    pub readonly: bool,
    /// Serial number.
    pub serial: Seq<u8>,
}

/// The end, with an error.
pub open spec fn failed(error: BlkError) -> Step<Seq<u8>> {
    Step::Finish { result: Err(error) }
}

/// The end of a device that cannot go on.
pub open spec fn faulted(fault: Fault) -> Step<Seq<u8>> {
    Step::Fault { fault }
}

/// Descriptor index in the slot of the available ring that ring index `index`
/// falls on, if the ring is long enough to hold the slot.
pub open spec fn ring_slot(ring: Seq<u8>, queue_size: u16, index: u16) -> Option<u16>
    recommends
        queue_size != 0,
{
    let at = 4 + 2 * (index % queue_size);
    if at + 2 <= ring.len() {
        Some(u16_at(ring, at))
    } else {
        None
    }
}

/// Ring index behind `index`.
pub open spec fn bumped(index: u16) -> u16 {
    if index == u16::MAX {
        0
    } else {
        (index + 1) as u16
    }
}

/// The device has been notified: it asks for the available ring, unless the
/// queue is not ready.
pub open spec fn on_notify(state: VirtioBlkState) -> Step<Seq<u8>> {
    if state.queue.ready {
        Step::ReadGuest {
            addr: state.queue.avail,
            len: (4 + 2 * state.queue.size) as usize,
            then: GuestRead::AvailRing {
                last_avail_idx: state.last_avail_idx,
                queue_size: state.queue.size,
            },
        }
    } else {
        Step::Finish { result: Ok(()) }
    }
}

/// The available ring has been read: its requests from `last_avail_idx` up to
/// its index are new.
pub open spec fn on_avail_ring(
    state: VirtioBlkState,
    last_avail_idx: u16,
    queue_size: u16,
    reply: Result<Seq<u8>, BlkError>,
) -> Next {
    match reply {
        Err(error) => (state, failed(error)),
        Ok(ring) => {
            if ring.len() < 4 {
                (state, faulted(Fault::AvailRingTooShort))
            } else if u16_at(ring, 2) == last_avail_idx {
                (state, Step::Finish { result: Ok(()) })
            } else {
                on_next_request(
                    state,
                    QueueScan {
                        ring,
                        queue_size,
                        next: last_avail_idx,
                        avail_idx: u16_at(ring, 2),
                    },
                )
            }
        },
    }
}

/// The requests before `scan.next` have been served. With none left, or where
/// the ring does not hold the next one, the device has caught up with the ring.
pub open spec fn on_next_request(state: VirtioBlkState, scan: QueueScan<Seq<u8>>) -> Next {
    let caught_up = (
        VirtioBlkState { last_avail_idx: scan.avail_idx, ..state },
        Step::Finish { result: Ok(()) },
    );
    if scan.next == scan.avail_idx {
        caught_up
    } else if scan.queue_size == 0 {
        (state, faulted(Fault::EmptyQueue))
    } else {
        match ring_slot(scan.ring, scan.queue_size, scan.next) {
            Some(head_idx) => (state, on_request(state, scan, head_idx)),
            None => caught_up,
        }
    }
}

/// A request is due: the device asks for the descriptor table.
pub open spec fn on_request(
    state: VirtioBlkState,
    scan: QueueScan<Seq<u8>>,
    head_idx: u16,
) -> Step<Seq<u8>> {
    Step::ReadGuest {
        addr: state.queue.desc,
        len: (16 * state.queue.size) as usize,
        then: GuestRead::DescTable { scan, head_idx },
    }
}

/// The descriptor table has been read: the device asks for the header of the
/// request, which the first descriptor points to.
pub open spec fn on_table(
    scan: QueueScan<Seq<u8>>,
    head_idx: u16,
    reply: Result<Seq<u8>, BlkError>,
) -> Step<Seq<u8>> {
    match reply {
        Err(error) => failed(error),
        Ok(table) => match descriptor_at(table, head_idx) {
            None => failed(BlkError::InvalidInput),
            Some(head) => Step::ReadGuest {
                addr: head.addr as usize,
                len: head.len as usize,
                then: GuestRead::Header { request: Request { scan, head_idx, table, head } },
            },
        },
    }
}

/// The header of a request has been read.
pub open spec fn on_header(
    wiring: Wiring,
    state: VirtioBlkState,
    request: Request<Seq<u8>>,
    reply: Result<Seq<u8>, BlkError>,
) -> Step<Seq<u8>> {
    match reply {
        Err(error) => failed(error),
        Ok(header) => {
            if header.len() < 16 {
                failed(BlkError::InvalidInput)
            } else {
                let req_type = u32_at(header, 0);
                let sector = u64_at(header, 8);
                if req_type == VIRTIO_BLK_T_IN {
                    on_read_request(wiring.block_size, state, request, sector)
                } else if req_type == VIRTIO_BLK_T_OUT {
                    on_write_request(wiring.readonly, state, request, sector)
                } else if req_type == VIRTIO_BLK_T_FLUSH {
                    Step::FlushBackend { then: request }
                } else if req_type == VIRTIO_BLK_T_GET_ID {
                    on_id_request(wiring.serial, state, request)
                } else {
                    on_status(state, request, VIRTIO_BLK_S_UNSUPP)
                }
            }
        },
    }
}

/// A read request: the device reads the disk for the first buffer of the chain
/// that it may write.
pub open spec fn on_read_request(
    block_size: u64,
    state: VirtioBlkState,
    request: Request<Seq<u8>>,
    sector: u64,
) -> Step<Seq<u8>> {
    match walk(request.table, request.head, Wanted::Writable) {
        Walk::Endless => faulted(Fault::EndlessChain),
        Walk::Absent => on_status(state, request, VIRTIO_BLK_S_IOERR),
        Walk::Found(desc) => {
            if sector * block_size > u64::MAX {
                faulted(Fault::SectorOutOfRange)
            } else {
                Step::ReadBackend {
                    offset: (sector * block_size) as u64,
                    len: desc.len as usize,
                    then: ReadTarget { request, addr: desc.addr as usize },
                }
            }
        },
    }
}

/// `data` with zeros in place of all but its first `count` bytes.
pub open spec fn zeroed_behind(data: Seq<u8>, count: usize) -> Seq<u8> {
    Seq::new(
        data.len(),
        |i: int|
            if i < count {
                data[i]
            } else {
                0
            },
    )
}

/// The disk has been read into `data`: the whole of it goes to the guest, with
/// zeros behind the bytes that the disk delivered.
pub open spec fn on_backend_data(
    target: ReadTarget<Seq<u8>>,
    data: Seq<u8>,
    reply: Result<usize, BlkError>,
) -> Step<Seq<u8>> {
    match reply {
        Err(error) => failed(error),
        Ok(count) => Step::WriteGuest {
            addr: target.addr,
            data: zeroed_behind(data, count),
            then: GuestWrite::Data { request: target.request },
        },
    }
}

/// The first bytes of `serial`, as many as a buffer of `len` bytes holds.
pub open spec fn serial_part(serial: Seq<u8>, len: u32) -> Seq<u8> {
    if serial.len() <= len {
        serial
    } else {
        serial.subrange(0, len as int)
    }
}

/// The guest asks for the serial number: it goes into the first buffer of the
/// chain that the device may write, as far as the buffer holds it. Without such
/// a buffer the request is not supported.
pub open spec fn on_id_request(
    serial: Seq<u8>,
    state: VirtioBlkState,
    request: Request<Seq<u8>>,
) -> Step<Seq<u8>> {
    match walk(request.table, request.head, Wanted::Writable) {
        Walk::Endless => faulted(Fault::EndlessChain),
        Walk::Absent => on_status(state, request, VIRTIO_BLK_S_UNSUPP),
        Walk::Found(desc) => Step::WriteGuest {
            addr: desc.addr as usize,
            data: serial_part(serial, desc.len),
            then: GuestWrite::Data { request },
        },
    }
}

/// A write request: the device asks for the first buffer of the chain that it
/// may only read and that is not the header. A disk that may only be read
/// refuses the request.
pub open spec fn on_write_request(
    readonly: bool,
    state: VirtioBlkState,
    request: Request<Seq<u8>>,
    sector: u64,
) -> Step<Seq<u8>> {
    if readonly {
        on_status(state, request, VIRTIO_BLK_S_IOERR)
    } else {
        match walk(request.table, request.head, Wanted::Payload { head_addr: request.head.addr }) {
            Walk::Endless => faulted(Fault::EndlessChain),
            Walk::Absent => on_status(state, request, VIRTIO_BLK_S_IOERR),
            Walk::Found(desc) => Step::ReadGuest {
                addr: desc.addr as usize,
                len: desc.len as usize,
                then: GuestRead::Payload { request, sector },
            },
        }
    }
}

/// The data of a write request has been read: it goes to the disk.
pub open spec fn on_payload(
    block_size: u64,
    request: Request<Seq<u8>>,
    sector: u64,
    reply: Result<Seq<u8>, BlkError>,
) -> Step<Seq<u8>> {
    match reply {
        Err(error) => failed(error),
        Ok(data) => {
            if sector * block_size > u64::MAX {
                faulted(Fault::SectorOutOfRange)
            } else {
                Step::WriteBackend {
                    offset: (sector * block_size) as u64,
                    data,
                    then: request,
                }
            }
        },
    }
}

/// The request has been carried out, or not, as `reply` tells: on success the
/// guest is told so.
pub open spec fn on_carried_out<T>(
    state: VirtioBlkState,
    request: Request<Seq<u8>>,
    reply: Result<T, BlkError>,
) -> Step<Seq<u8>> {
    match reply {
        Err(error) => failed(error),
        Ok(_) => on_status(state, request, VIRTIO_BLK_S_OK),
    }
}

/// The status of a request is known: it goes into the buffer of the last
/// descriptor of the chain. A chain that leaves the table has no place for it.
pub open spec fn on_status(
    state: VirtioBlkState,
    request: Request<Seq<u8>>,
    status: u8,
) -> Step<Seq<u8>> {
    match walk(request.table, request.head, Wanted::Last) {
        Walk::Endless => faulted(Fault::EndlessChain),
        Walk::Absent => on_served(state, request.scan, request.head_idx),
        Walk::Found(desc) => Step::WriteGuest {
            addr: desc.addr as usize,
            data: seq![status],
            then: GuestWrite::Status { scan: request.scan, head_idx: request.head_idx },
        },
    }
}

/// A request has been served: the device asks for the index of the used ring.
pub open spec fn on_served(
    state: VirtioBlkState,
    scan: QueueScan<Seq<u8>>,
    head_idx: u16,
) -> Step<Seq<u8>> {
    Step::ReadGuest {
        addr: state.queue.used,
        len: 4,
        then: GuestRead::UsedHeader {
            scan,
            head_idx,
            used: state.queue.used,
            queue_size: state.queue.size,
        },
    }
}

/// An entry of the used ring: the request's first descriptor and a length.
pub open spec fn used_elem(head_idx: u16) -> Seq<u8> {
    u32_bytes(head_idx as u32) + u32_bytes(USED_LEN)
}

/// The index of the used ring has been read: the request goes into the slot
/// that the index falls on.
pub open spec fn on_used_header(
    scan: QueueScan<Seq<u8>>,
    head_idx: u16,
    used: usize,
    queue_size: u16,
    reply: Result<Seq<u8>, BlkError>,
) -> Step<Seq<u8>> {
    match reply {
        Err(error) => failed(error),
        Ok(header) => {
            if header.len() < 4 {
                faulted(Fault::UsedRingTooShort)
            } else if queue_size == 0 {
                faulted(Fault::EmptyQueue)
            } else {
                let used_idx = u16_at(header, 2);
                let elem_addr = used + 4 + 8 * (used_idx % queue_size);
                if elem_addr > usize::MAX {
                    faulted(Fault::AddressOutOfRange)
                } else {
                    Step::WriteGuest {
                        addr: elem_addr as usize,
                        data: used_elem(head_idx),
                        then: GuestWrite::UsedElem {
                            scan,
                            idx_addr: (used + 2) as usize,
                            used_idx: bumped(used_idx),
                        },
                    }
                }
            }
        },
    }
}

/// The request is in the used ring: the index of the ring follows.
pub open spec fn on_used_elem(
    scan: QueueScan<Seq<u8>>,
    idx_addr: usize,
    used_idx: u16,
    reply: Result<(), BlkError>,
) -> Step<Seq<u8>> {
    match reply {
        Err(error) => failed(error),
        Ok(_) => Step::WriteGuest {
            addr: idx_addr,
            data: u16_bytes(used_idx),
            then: GuestWrite::UsedIdx { scan },
        },
    }
}

/// The used ring is complete: the device marks its interrupt as pending and
/// has it injected.
pub open spec fn on_used_idx(
    state: VirtioBlkState,
    irq: usize,
    scan: QueueScan<Seq<u8>>,
    reply: Result<(), BlkError>,
) -> Next {
    match reply {
        Err(error) => (state, failed(error)),
        Ok(_) => (
            VirtioBlkState { interrupt_status: state.interrupt_status | 1, ..state },
            Step::InjectIrq { irq, then: scan },
        ),
    }
}

/// The interrupt has been injected: the next request is due.
pub open spec fn on_irq(
    state: VirtioBlkState,
    scan: QueueScan<Seq<u8>>,
    reply: Result<(), BlkError>,
) -> Next {
    match reply {
        Err(error) => (state, failed(error)),
        Ok(_) => on_next_request(state, QueueScan { next: bumped(scan.next), ..scan }),
    }
}

/// Guest memory has been read.
pub open spec fn on_guest_read(
    wiring: Wiring,
    state: VirtioBlkState,
    then: GuestRead<Seq<u8>>,
    reply: Result<Seq<u8>, BlkError>,
) -> Next {
    match then {
        GuestRead::AvailRing { last_avail_idx, queue_size } => on_avail_ring(
            state,
            last_avail_idx,
            queue_size,
            reply,
        ),
        GuestRead::DescTable { scan, head_idx } => (state, on_table(scan, head_idx, reply)),
        GuestRead::Header { request } => (state, on_header(wiring, state, request, reply)),
        GuestRead::Payload { request, sector } => (
            state,
            on_payload(wiring.block_size, request, sector, reply),
        ),
        GuestRead::UsedHeader { scan, head_idx, used, queue_size } => (
            state,
            on_used_header(scan, head_idx, used, queue_size, reply),
        ),
    }
}

/// Guest memory has been written.
pub open spec fn on_guest_write(
    state: VirtioBlkState,
    irq: usize,
    then: GuestWrite<Seq<u8>>,
    reply: Result<(), BlkError>,
) -> Next {
    match then {
        GuestWrite::Data { request } => (state, on_carried_out(state, request, reply)),
        GuestWrite::Status { scan, head_idx } => (
            state,
            match reply {
                Err(error) => failed(error),
                Ok(_) => on_served(state, scan, head_idx),
            },
        ),
        GuestWrite::UsedElem { scan, idx_addr, used_idx } => (
            state,
            on_used_elem(scan, idx_addr, used_idx, reply),
        ),
        GuestWrite::UsedIdx { scan } => on_used_idx(state, irq, scan, reply),
    }
}

} // verus!
