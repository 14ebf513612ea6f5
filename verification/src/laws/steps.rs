//! Laws of the single steps of a notification: what each reply leads to,
//! whatever the surroundings reply and whatever the driver does meanwhile.

use vstd::prelude::*;
use vstd::utf8::encode_utf8;

use crate::device::VirtioBlkDevice;
use crate::error::BlkError;
use crate::laws::chain::{entry_holds, law_descriptor_layout};
use crate::laws::numbers::{law_bytes, law_places};
use crate::protocol::{
    on_backend_data, on_carried_out, on_guest_read, on_guest_write, on_irq, on_notify, Next,
    Wiring,
};
use crate::queue::{walk, VirtqDescriptor, Walk, Wanted};
use crate::registers::VirtioBlkState;
use crate::step::{
    reply_view, Fault, GuestRead, GuestWrite, QueueScan, ReadTarget, Request, Step,
};

verus! {

/// The step is the end, with the given result.
pub open spec fn ends_with(step: Step<Seq<u8>>, result: Result<(), BlkError>) -> bool {
    step matches Step::Finish { result: told } && told == result
}

/// The device cannot go on for the given reason.
pub open spec fn stops_with(step: Step<Seq<u8>>, fault: Fault) -> bool {
    step matches Step::Fault { fault: reason } && reason == fault
}

/// The step asks for `len` bytes of guest memory at `addr`, to go on with `then`.
pub open spec fn reads_guest(
    step: Step<Seq<u8>>,
    addr: int,
    len: int,
    then: GuestRead<Seq<u8>>,
) -> bool {
    step matches Step::ReadGuest { addr: at, len: count, then: goes_on } && at == addr && count
        == len && goes_on == then
}

/// The step writes guest memory at `addr`, to go on with `then`.
pub open spec fn writes_guest(
    step: Step<Seq<u8>>,
    addr: int,
    data: Seq<u8>,
    then: GuestWrite<Seq<u8>>,
) -> bool {
    step matches Step::WriteGuest { addr: at, data: bytes, then: goes_on } && at == addr && bytes
        == data && goes_on == then
}

/// Where a descriptor points.
pub open spec fn address(desc: VirtqDescriptor) -> int {
    desc.addr as usize as int
}

/// A notification starts with the flags, the index and all slots of the
/// available ring, and ends at once where the queue is not ready.
pub proof fn law_notified(state: VirtioBlkState)
    ensures
        state.queue.ready ==> reads_guest(
            on_notify(state),
            state.queue.avail as int,
            4 + 2 * state.queue.size,
            GuestRead::AvailRing {
                last_avail_idx: state.last_avail_idx,
                queue_size: state.queue.size,
            },
        ),
        !state.queue.ready ==> ends_with(on_notify(state), Ok(())),
{
}

/// The request at ring index `scan.next` is taken up: its slot in the ring names
/// its first descriptor, and the device asks for all of the descriptor table.
/// Where no request is left, or the ring is too short for the slot, the device
/// is level with the ring.
pub open spec fn takes_up(state: VirtioBlkState, scan: QueueScan<Seq<u8>>, next: Next) -> bool {
    let at = 4 + 2 * (scan.next as int % scan.queue_size as int);
    if scan.next != scan.avail_idx && scan.queue_size == 0 {
        next.0 == state && stops_with(next.1, Fault::EmptyQueue)
    } else if scan.next == scan.avail_idx || at + 2 > scan.ring.len() {
        &&& next.0.last_avail_idx == scan.avail_idx
        &&& next.0 == (VirtioBlkState { last_avail_idx: next.0.last_avail_idx, ..state })
        &&& ends_with(next.1, Ok(()))
    } else {
        &&& next.0 == state
        &&& reads_guest(
            next.1,
            state.queue.desc as int,
            16 * state.queue.size,
            GuestRead::DescTable {
                scan,
                head_idx: (scan.ring[at] + 0x100 * scan.ring[at + 1]) as u16,
            },
        )
    }
}

/// The available ring tells which requests are new: those from where the device
/// stopped up to the index of the ring. The first of them is taken up.
pub proof fn law_ring_arrives(
    wiring: Wiring,
    state: VirtioBlkState,
    last_avail_idx: u16,
    queue_size: u16,
    ring: Seq<u8>,
)
    ensures
        ({
            let then = GuestRead::AvailRing { last_avail_idx, queue_size };
            let next = on_guest_read(wiring, state, then, Ok(ring));
            let index = (ring[2] + 0x100 * ring[3]) as u16;
            if ring.len() < 4 {
                next.0 == state && stops_with(next.1, Fault::AvailRingTooShort)
            } else if index == last_avail_idx {
                next.0 == state && ends_with(next.1, Ok(()))
            } else {
                takes_up(
                    state,
                    QueueScan { ring, queue_size, next: last_avail_idx, avail_idx: index },
                    next,
                )
            }
        }),
{
    law_places(ring, 2);
}

/// Once the guest has been interrupted for a request, the one behind it in the
/// ring is taken up.
pub proof fn law_request_follows(state: VirtioBlkState, scan: QueueScan<Seq<u8>>)
    ensures
        takes_up(
            state,
            QueueScan { next: ((scan.next + 1) % 0x1_0000) as u16, ..scan },
            on_irq(state, scan, Ok(())),
        ),
{
}

/// The entry of the table that the ring names is the first descriptor of the
/// request. It points to the header, all of which the device asks for.
pub proof fn law_table_arrives(
    wiring: Wiring,
    state: VirtioBlkState,
    scan: QueueScan<Seq<u8>>,
    head_idx: u16,
    table: Seq<u8>,
    head: VirtqDescriptor,
)
    ensures
        ({
            let then = GuestRead::DescTable { scan, head_idx };
            let next = on_guest_read(wiring, state, then, Ok(table));
            &&& next.0 == state
            &&& entry_holds(table, head_idx, head) ==> reads_guest(
                next.1,
                address(head),
                head.len as int,
                GuestRead::Header { request: Request { scan, head_idx, table, head } },
            )
            &&& 16 * head_idx + 16 > table.len() ==> ends_with(
                next.1,
                Err(BlkError::InvalidInput),
            )
        }),
{
    law_descriptor_layout(table, head_idx, head);
}

/// The device asks for the flags and the index of the used ring, to report a
/// request.
pub open spec fn starts_report(
    state: VirtioBlkState,
    scan: QueueScan<Seq<u8>>,
    head_idx: u16,
    step: Step<Seq<u8>>,
) -> bool {
    reads_guest(
        step,
        state.queue.used as int,
        4,
        GuestRead::UsedHeader {
            scan,
            head_idx,
            used: state.queue.used,
            queue_size: state.queue.size,
        },
    )
}

/// A request is answered: the status is the one byte that goes where the last
/// descriptor of the chain points. A chain that leaves the table gets no answer.
pub open spec fn answers(
    state: VirtioBlkState,
    request: Request<Seq<u8>>,
    status: u8,
    step: Step<Seq<u8>>,
) -> bool {
    match walk(request.table, request.head, Wanted::Last) {
        Walk::Found(desc) => writes_guest(
            step,
            address(desc),
            seq![status],
            GuestWrite::Status { scan: request.scan, head_idx: request.head_idx },
        ),
        Walk::Absent => starts_report(state, request.scan, request.head_idx, step),
        Walk::Endless => stops_with(step, Fault::EndlessChain),
    }
}

/// A request of type 0 reads the disk: as many bytes as the first buffer that the
/// device may write is long, from the start of the sector on.
pub open spec fn starts_read(
    wiring: Wiring,
    state: VirtioBlkState,
    request: Request<Seq<u8>>,
    sector: int,
    step: Step<Seq<u8>>,
) -> bool {
    match walk(request.table, request.head, Wanted::Writable) {
        Walk::Found(desc) => if sector * wiring.block_size > u64::MAX {
            stops_with(step, Fault::SectorOutOfRange)
        } else {
            step matches Step::ReadBackend { offset, len, then } && offset == sector
                * wiring.block_size && len == desc.len && then.request == request && then.addr
                == address(desc)
        },
        Walk::Absent => answers(state, request, 1, step),
        Walk::Endless => stops_with(step, Fault::EndlessChain),
    }
}

/// A request of type 1 writes the disk: the device asks for all of the first
/// buffer that it may only read and that is not the header. A disk that may only
/// be read refuses.
pub open spec fn starts_write(
    wiring: Wiring,
    state: VirtioBlkState,
    request: Request<Seq<u8>>,
    sector: u64,
    step: Step<Seq<u8>>,
) -> bool {
    match walk(request.table, request.head, Wanted::Payload { head_addr: request.head.addr }) {
        _ if wiring.readonly => answers(state, request, 1, step),
        Walk::Found(desc) => reads_guest(
            step,
            address(desc),
            desc.len as int,
            GuestRead::Payload { request, sector },
        ),
        Walk::Absent => answers(state, request, 1, step),
        Walk::Endless => stops_with(step, Fault::EndlessChain),
    }
}

/// A request of type 8 asks for the serial number: its bytes go where the first
/// buffer that the device may write is, and no more of them than it holds.
pub open spec fn starts_serial(
    wiring: Wiring,
    state: VirtioBlkState,
    request: Request<Seq<u8>>,
    step: Step<Seq<u8>>,
) -> bool {
    match walk(request.table, request.head, Wanted::Writable) {
        Walk::Found(desc) => {
            &&& step matches Step::WriteGuest { addr, data, then }
            &&& addr == address(desc)
            &&& data.len() <= desc.len
            &&& data.len() == desc.len || data.len() == wiring.serial.len()
            &&& data.len() <= wiring.serial.len()
            &&& forall|i: int| 0 <= i < data.len() ==> data[i] == wiring.serial[i]
            &&& then == (GuestWrite::Data { request })
        },
        Walk::Absent => answers(state, request, 2, step),
        Walk::Endless => stops_with(step, Fault::EndlessChain),
    }
}

/// The first four bytes of the header are the type of the request, its last
/// eight the sector. The type decides what is done.
pub proof fn law_header_arrives(
    wiring: Wiring,
    state: VirtioBlkState,
    request: Request<Seq<u8>>,
    header: Seq<u8>,
)
    ensures
        ({
            let then = GuestRead::Header { request };
            let next = on_guest_read(wiring, state, then, Ok(header));
            let req_type = header[0] + 0x100 * header[1] + 0x1_0000 * header[2] + 0x100_0000
                * header[3];
            let sector = header[8] + 0x100 * header[9] + 0x1_0000 * header[10] + 0x100_0000
                * header[11] + 0x1_0000_0000 * header[12] + 0x100_0000_0000 * header[13]
                + 0x1_0000_0000_0000 * header[14] + 0x100_0000_0000_0000 * header[15];
            &&& next.0 == state
            &&& if header.len() < 16 {
                ends_with(next.1, Err(BlkError::InvalidInput))
            } else if req_type == 0 {
                starts_read(wiring, state, request, sector, next.1)
            } else if req_type == 1 {
                starts_write(wiring, state, request, sector as u64, next.1)
            } else if req_type == 4 {
                next.1 matches Step::FlushBackend { then: flushed } && flushed == request
            } else if req_type == 8 {
                starts_serial(wiring, state, request, next.1)
            } else {
                answers(state, request, 2, next.1)
            }
        }),
{
    law_places(header, 0);
    law_places(header, 8);
}

/// The data of a write request goes to the disk as it is, from the start of the
/// sector on.
pub proof fn law_payload_arrives(
    wiring: Wiring,
    state: VirtioBlkState,
    request: Request<Seq<u8>>,
    sector: u64,
    payload: Seq<u8>,
)
    ensures
        ({
            let then = GuestRead::Payload { request, sector };
            let next = on_guest_read(wiring, state, then, Ok(payload));
            &&& next.0 == state
            &&& if sector * wiring.block_size > u64::MAX {
                stops_with(next.1, Fault::SectorOutOfRange)
            } else {
                next.1 matches Step::WriteBackend { offset, data, then: written } && offset == sector
                    * wiring.block_size && data == payload && written == request
            }
        }),
{
}

/// What the disk has delivered goes to the guest, in a buffer of the length that
/// was asked for and with zeros for what it has not delivered.
pub proof fn law_disk_delivers(target: ReadTarget<Seq<u8>>, read: Seq<u8>, count: usize)
    ensures
        on_backend_data(target, read, Ok(count)) matches Step::WriteGuest { addr, data, then } && {
            &&& addr == target.addr
            &&& data.len() == read.len()
            &&& forall|i: int| 0 <= i < data.len() && i < count ==> data[i] == read[i]
            &&& forall|i: int| count <= i < data.len() ==> data[i] == 0
            &&& then == (GuestWrite::Data { request: target.request })
        },
{
}

/// A request is answered with success once the disk has been written or flushed,
/// or the guest has got its data.
pub proof fn law_success_answered(
    wiring: Wiring,
    state: VirtioBlkState,
    request: Request<Seq<u8>>,
    count: usize,
)
    ensures
        answers(state, request, 0, on_carried_out(state, request, Ok::<usize, BlkError>(count))),
        answers(state, request, 0, on_carried_out(state, request, Ok::<(), BlkError>(()))),
        ({
            let next = on_guest_write(state, wiring.irq, GuestWrite::Data { request }, Ok(()));
            next.0 == state && answers(state, request, 0, next.1)
        }),
{
}

/// A request that has been answered is reported.
pub proof fn law_answer_written(
    wiring: Wiring,
    state: VirtioBlkState,
    scan: QueueScan<Seq<u8>>,
    head_idx: u16,
)
    ensures
        ({
            let then = GuestWrite::Status { scan, head_idx };
            let next = on_guest_write(state, wiring.irq, then, Ok(()));
            next.0 == state && starts_report(state, scan, head_idx, next.1)
        }),
{
}

/// The entry that reports a request goes into the slot that the index of the
/// used ring falls on: eight bytes, the first four of them the number of the
/// request's first descriptor, the others a length of 512.
pub proof fn law_used_ring_arrives(
    wiring: Wiring,
    state: VirtioBlkState,
    scan: QueueScan<Seq<u8>>,
    head_idx: u16,
    used: usize,
    queue_size: u16,
    header: Seq<u8>,
)
    ensures
        ({
            let reading = GuestRead::UsedHeader { scan, head_idx, used, queue_size };
            let next = on_guest_read(wiring, state, reading, Ok(header));
            let index = header[2] + 0x100 * header[3];
            let slot = used + 4 + 8 * (index % queue_size as int);
            &&& next.0 == state
            &&& if header.len() < 4 {
                stops_with(next.1, Fault::UsedRingTooShort)
            } else if queue_size == 0 {
                stops_with(next.1, Fault::EmptyQueue)
            } else if slot > usize::MAX {
                stops_with(next.1, Fault::AddressOutOfRange)
            } else {
                &&& next.1 matches Step::WriteGuest { addr, data, then }
                &&& addr == slot
                &&& data.len() == 8
                &&& data[0] + 0x100 * data[1] + 0x1_0000 * data[2] + 0x100_0000 * data[3]
                    == head_idx
                &&& data[4] + 0x100 * data[5] + 0x1_0000 * data[6] + 0x100_0000 * data[7] == 512
                &&& then == (GuestWrite::UsedElem {
                    scan,
                    idx_addr: (used + 2) as usize,
                    used_idx: ((index + 1) % 0x1_0000) as u16,
                })
            }
        }),
{
    law_places(header, 2);
    law_bytes(0, head_idx as u32, 0);
    law_bytes(0, 512, 0);
}

/// The index of the used ring follows the entry: its two bytes, where they stand
/// in the ring.
pub proof fn law_entry_written(
    wiring: Wiring,
    state: VirtioBlkState,
    scan: QueueScan<Seq<u8>>,
    idx_addr: usize,
    used_idx: u16,
)
    ensures
        ({
            let writing = GuestWrite::UsedElem { scan, idx_addr, used_idx };
            let next = on_guest_write(state, wiring.irq, writing, Ok(()));
            &&& next.0 == state
            &&& next.1 matches Step::WriteGuest { addr, data, then }
            &&& addr == idx_addr
            &&& data.len() == 2
            &&& data[0] + 0x100 * data[1] == used_idx
            &&& then == (GuestWrite::UsedIdx { scan })
        }),
{
    law_bytes(used_idx, 0, 0);
}

/// After the index the device marks its interrupt as pending, leaves the others
/// as they are, and has its interrupt injected.
pub proof fn law_index_written(
    wiring: Wiring,
    state: VirtioBlkState,
    scan: QueueScan<Seq<u8>>,
    bit: u32,
)
    requires
        0 < bit < 32,
    ensures
        ({
            let writing = GuestWrite::UsedIdx { scan };
            let next = on_guest_write(state, wiring.irq, writing, Ok(()));
            let pending = next.0.interrupt_status;
            &&& pending % 2 == 1
            &&& (pending >> bit) & 1 == (state.interrupt_status >> bit) & 1
            &&& next.0 == (VirtioBlkState { interrupt_status: pending, ..state })
            &&& next.1 matches Step::InjectIrq { irq, then } && irq == wiring.irq && then == scan
        }),
{
    let before = state.interrupt_status;
    assert((before | 1) % 2 == 1) by (bit_vector);
    assert(((before | 1) >> bit) & 1 == (before >> bit) & 1) by (bit_vector)
        requires
            0 < bit < 32,
    ;
}

/// What specifications say of a device is what it was made with.
pub proof fn law_wiring(device: VirtioBlkDevice, block_size: u64)
    ensures
        ({
            let wiring = device.wiring(block_size);
            &&& wiring.irq == device.irq_id
            &&& wiring.block_size == block_size
            &&& wiring.readonly == device.readonly
            &&& wiring.serial == encode_utf8(device.serial@)
        }),
{
}

/// What specifications say of a notification and a request is all that there is
/// to them.
pub proof fn law_memory_of_requests(
    scan: QueueScan<Vec<u8>>,
    request: Request<Vec<u8>>,
    target: ReadTarget<Vec<u8>>,
)
    ensures
        scan@.ring == scan.ring@,
        scan@.queue_size == scan.queue_size,
        scan@.next == scan.next,
        scan@.avail_idx == scan.avail_idx,
        request@.scan == request.scan@,
        request@.head_idx == request.head_idx,
        request@.table == request.table@,
        request@.head == request.head,
        target@.request == target.request@,
        target@.addr == target.addr,
{
}

/// What specifications say of guest memory that is read or written is all that
/// there is to it.
pub proof fn law_memory_of_guest(read: GuestRead<Vec<u8>>, write: GuestWrite<Vec<u8>>)
    ensures
        match read {
            GuestRead::AvailRing { last_avail_idx, queue_size } => read@ == (
            GuestRead::<Seq<u8>>::AvailRing { last_avail_idx, queue_size }),
            GuestRead::DescTable { scan, head_idx } => read@ == (GuestRead::DescTable {
                scan: scan@,
                head_idx,
            }),
            GuestRead::Header { request } => read@ == (GuestRead::Header { request: request@ }),
            GuestRead::Payload { request, sector } => read@ == (GuestRead::Payload {
                request: request@,
                sector,
            }),
            GuestRead::UsedHeader { scan, head_idx, used, queue_size } => read@ == (
            GuestRead::UsedHeader { scan: scan@, head_idx, used, queue_size }),
        },
        match write {
            GuestWrite::Data { request } => write@ == (GuestWrite::Data { request: request@ }),
            GuestWrite::Status { scan, head_idx } => write@ == (GuestWrite::Status {
                scan: scan@,
                head_idx,
            }),
            GuestWrite::UsedElem { scan, idx_addr, used_idx } => write@ == (GuestWrite::UsedElem {
                scan: scan@,
                idx_addr,
                used_idx,
            }),
            GuestWrite::UsedIdx { scan } => write@ == (GuestWrite::UsedIdx { scan: scan@ }),
        },
{
}

/// What specifications say of a step and of a reply is all that there is to it.
pub proof fn law_memory_of_steps(step: Step<Vec<u8>>, reply: Result<Vec<u8>, BlkError>)
    ensures
        match step {
            Step::ReadGuest { addr, len, then } => step@ == (Step::ReadGuest {
                addr,
                len,
                then: then@,
            }),
            Step::WriteGuest { addr, data, then } => step@ == (Step::WriteGuest {
                addr,
                data: data@,
                then: then@,
            }),
            Step::ReadBackend { offset, len, then } => step@ == (Step::ReadBackend {
                offset,
                len,
                then: then@,
            }),
            Step::WriteBackend { offset, data, then } => step@ == (Step::WriteBackend {
                offset,
                data: data@,
                then: then@,
            }),
            Step::FlushBackend { then } => step@ == (Step::FlushBackend { then: then@ }),
            Step::InjectIrq { irq, then } => step@ == (Step::InjectIrq { irq, then: then@ }),
            Step::Finish { result } => ends_with(step@, result),
            Step::Fault { fault } => stops_with(step@, fault),
        },
        match reply {
            Ok(bytes) => reply_view(reply) == Ok::<Seq<u8>, BlkError>(bytes@),
            Err(error) => reply_view(reply) == Err::<Seq<u8>, BlkError>(error),
        },
{
}

} // verus!
