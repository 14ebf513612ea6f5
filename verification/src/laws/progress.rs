//! Laws of serving the queue that hold whatever the surroundings reply.

use vstd::prelude::*;

use crate::bytes::u16_at;
use crate::error::BlkError;
use crate::laws::chain::law_walk;
use crate::protocol::{
    on_backend_data, on_carried_out, on_guest_read, on_guest_write, on_irq, on_notify, Next,
    Wiring,
};
use crate::queue::{link, VirtqDescriptor, Wanted};
use crate::registers::VirtioBlkState;
use crate::service::ring_distance;
use crate::step::{GuestRead, GuestWrite, QueueScan, ReadTarget, Request, Step};

verus! {

/// Most pieces of outside work that a request can take.
pub open spec fn request_cost() -> int {
    9
}

/// Most pieces of outside work that the requests behind the one being served
/// can take.
pub open spec fn work_behind(scan: QueueScan<Seq<u8>>) -> int {
    request_cost() * (ring_distance(scan.next, scan.avail_idx) - 1)
}

/// Most pieces of outside work that are left, this step included.
pub open spec fn work_left(step: Step<Seq<u8>>) -> int {
    match step {
        Step::ReadGuest { then, .. } => match then {
            GuestRead::AvailRing { .. } => request_cost() * 0xffff + 1,
            GuestRead::DescTable { scan, .. } => work_behind(scan) + 9,
            GuestRead::Header { request } => work_behind(request.scan) + 8,
            GuestRead::Payload { request, .. } => work_behind(request.scan) + 7,
            GuestRead::UsedHeader { scan, .. } => work_behind(scan) + 4,
        },
        Step::WriteGuest { then, .. } => match then {
            GuestWrite::Data { request } => work_behind(request.scan) + 6,
            GuestWrite::Status { scan, .. } => work_behind(scan) + 5,
            GuestWrite::UsedElem { scan, .. } => work_behind(scan) + 3,
            GuestWrite::UsedIdx { scan } => work_behind(scan) + 2,
        },
        Step::ReadBackend { then, .. } => work_behind(then.request.scan) + 7,
        Step::WriteBackend { then, .. } => work_behind(then.scan) + 6,
        Step::FlushBackend { then } => work_behind(then.scan) + 6,
        Step::InjectIrq { then, .. } => work_behind(then) + 1,
        Step::Finish { .. } => 0,
        Step::Fault { .. } => 0,
    }
}

/// The request being served is one of the new ones.
pub open spec fn is_live(scan: QueueScan<Seq<u8>>) -> bool {
    scan.next != scan.avail_idx
}

/// The step belongs to a new request, or to none.
pub open spec fn in_order(step: Step<Seq<u8>>) -> bool {
    match step {
        Step::ReadGuest { then, .. } => match then {
            GuestRead::AvailRing { .. } => true,
            GuestRead::DescTable { scan, .. } => is_live(scan),
            GuestRead::Header { request } => is_live(request.scan),
            GuestRead::Payload { request, .. } => is_live(request.scan),
            GuestRead::UsedHeader { scan, .. } => is_live(scan),
        },
        Step::WriteGuest { then, .. } => match then {
            GuestWrite::Data { request } => is_live(request.scan),
            GuestWrite::Status { scan, .. } => is_live(scan),
            GuestWrite::UsedElem { scan, .. } => is_live(scan),
            GuestWrite::UsedIdx { scan } => is_live(scan),
        },
        Step::ReadBackend { then, .. } => is_live(then.request.scan),
        Step::WriteBackend { then, .. } => is_live(then.scan),
        Step::FlushBackend { then } => is_live(then.scan),
        Step::InjectIrq { then, .. } => is_live(then),
        Step::Finish { .. } => true,
        Step::Fault { .. } => true,
    }
}

/// `next` can be what the device asks for when the outside work of `step`,
/// begun in whatever state, has been replied to in whatever way.
pub open spec fn can_follow(
    wiring: Wiring,
    state: VirtioBlkState,
    step: Step<Seq<u8>>,
    next: Next,
) -> bool {
    match step {
        Step::ReadGuest { then, .. } => exists|reply: Result<Seq<u8>, BlkError>|
            next == #[trigger] on_guest_read(wiring, state, then, reply),
        Step::WriteGuest { then, .. } => exists|reply: Result<(), BlkError>|
            next == #[trigger] on_guest_write(state, wiring.irq, then, reply),
        Step::ReadBackend { then, .. } => exists|data: Seq<u8>, reply: Result<usize, BlkError>|
            next == (state, #[trigger] on_backend_data(then, data, reply)),
        Step::WriteBackend { then, .. } => exists|reply: Result<usize, BlkError>|
            next == (state, #[trigger] on_carried_out(state, then, reply)),
        Step::FlushBackend { then } => exists|reply: Result<(), BlkError>|
            next == (state, #[trigger] on_carried_out(state, then, reply)),
        Step::InjectIrq { then, .. } => exists|reply: Result<(), BlkError>|
            next == #[trigger] on_irq(state, then, reply),
        Step::Finish { .. } => false,
        Step::Fault { .. } => false,
    }
}

/// A notification is dealt with in bounded time: whatever the driver does to
/// the registers meanwhile and whatever the replies are, each of them leaves
/// less to do.
pub proof fn law_notifications_end(
    wiring: Wiring,
    state: VirtioBlkState,
    step: Step<Seq<u8>>,
    next: Next,
)
    requires
        in_order(step),
        can_follow(wiring, state, step, next),
    ensures
        in_order(next.1),
        0 <= work_left(next.1) < work_left(step),
{
}

/// The first step of a notification is in order.
pub proof fn law_notifications_begin(state: VirtioBlkState)
    ensures
        in_order(on_notify(state)),
        work_left(on_notify(state)) <= 1 + request_cost() * 0xffff,
{
}

/// Serving the queue never touches what the driver has set up. It may mark the
/// interrupt as pending, and it moves on in the available ring only when all
/// the new requests have been dealt with.
pub proof fn law_registers_kept(
    wiring: Wiring,
    state: VirtioBlkState,
    step: Step<Seq<u8>>,
    next: Next,
)
    requires
        can_follow(wiring, state, step, next),
    ensures
        next.0 == (VirtioBlkState {
            interrupt_status: next.0.interrupt_status,
            last_avail_idx: next.0.last_avail_idx,
            ..state
        }),
        next.0.interrupt_status == state.interrupt_status || (next.0.interrupt_status
            == state.interrupt_status | 1 && next.1 is InjectIrq),
        next.0.last_avail_idx == state.last_avail_idx || next.1 == (Step::<Seq<u8>>::Finish {
            result: Ok(()),
        }),
{
}

/// An interrupt is injected only once it is marked as pending, and it is the
/// device's own.
pub proof fn law_interrupts_are_pending(
    wiring: Wiring,
    state: VirtioBlkState,
    step: Step<Seq<u8>>,
    next: Next,
)
    requires
        can_follow(wiring, state, step, next),
        next.1 is InjectIrq,
    ensures
        next.0.interrupt_status & 1 == 1,
        next.1->InjectIrq_irq == wiring.irq,
        step matches Step::WriteGuest { then, .. } && then is UsedIdx,
{
    let pending = state.interrupt_status;
    assert((pending | 1) & 1 == 1) by (bit_vector);
}

/// The first error that the surroundings report ends the notification with that
/// error, and the device does not move on in the available ring.
pub proof fn law_errors_end(
    wiring: Wiring,
    state: VirtioBlkState,
    error: BlkError,
    read: GuestRead<Seq<u8>>,
    write: GuestWrite<Seq<u8>>,
    target: ReadTarget<Seq<u8>>,
    data: Seq<u8>,
    request: Request<Seq<u8>>,
    scan: QueueScan<Seq<u8>>,
)
    ensures
        ({
            let end = Step::<Seq<u8>>::Finish { result: Err(error) };
            &&& on_guest_read(wiring, state, read, Err(error)) == (state, end)
            &&& on_guest_write(state, wiring.irq, write, Err(error)) == (state, end)
            &&& on_backend_data(target, data, Err(error)) == end
            &&& on_carried_out::<usize>(state, request, Err(error)) == end
            &&& on_carried_out::<()>(state, request, Err(error)) == end
            &&& on_irq(state, scan, Err(error)) == (state, end)
        }),
{
}

/// Index of the available ring that the step's notification has read, if it has
/// read one.
pub open spec fn ring_index(step: Step<Seq<u8>>) -> Option<u16> {
    match step {
        Step::ReadGuest { then, .. } => match then {
            GuestRead::AvailRing { .. } => None,
            GuestRead::DescTable { scan, .. } => Some(scan.avail_idx),
            GuestRead::Header { request } => Some(request.scan.avail_idx),
            GuestRead::Payload { request, .. } => Some(request.scan.avail_idx),
            GuestRead::UsedHeader { scan, .. } => Some(scan.avail_idx),
        },
        Step::WriteGuest { then, .. } => match then {
            GuestWrite::Data { request } => Some(request.scan.avail_idx),
            GuestWrite::Status { scan, .. } => Some(scan.avail_idx),
            GuestWrite::UsedElem { scan, .. } => Some(scan.avail_idx),
            GuestWrite::UsedIdx { scan } => Some(scan.avail_idx),
        },
        Step::ReadBackend { then, .. } => Some(then.request.scan.avail_idx),
        Step::WriteBackend { then, .. } => Some(then.scan.avail_idx),
        Step::FlushBackend { then } => Some(then.scan.avail_idx),
        Step::InjectIrq { then, .. } => Some(then.avail_idx),
        Step::Finish { .. } => None,
        Step::Fault { .. } => None,
    }
}

/// Nothing is left to do.
pub open spec fn is_end(step: Step<Seq<u8>>) -> bool {
    step is Finish || step is Fault
}

/// The end of a notification that has been dealt with.
pub open spec fn success() -> Step<Seq<u8>> {
    Step::Finish { result: Ok(()) }
}

/// A notification keeps to the index of the available ring that it has read,
/// whatever the replies are, and where it succeeds the device is level with that
/// index.
pub proof fn law_ring_index_kept(
    wiring: Wiring,
    state: VirtioBlkState,
    step: Step<Seq<u8>>,
    next: Next,
)
    requires
        ring_index(step) is Some,
        can_follow(wiring, state, step, next),
    ensures
        ring_index(next.1) == ring_index(step) || is_end(next.1),
        next.1 == success() ==> Some(next.0.last_avail_idx) == ring_index(step),
{
}

/// The course of a notification: in `history` each step with the registers that
/// the device left when it asked for it, in `replied` the registers when the
/// reply came. The driver may write registers in between, which leaves the
/// device's place in the available ring alone.
pub open spec fn is_history(
    wiring: Wiring,
    replied: Seq<VirtioBlkState>,
    history: Seq<Next>,
) -> bool {
    &&& history.len() > 0
    &&& history[0].1 == on_notify(history[0].0)
    &&& forall|i: int|
        0 <= i < history.len() - 1 ==> {
            &&& (#[trigger] replied[i]).last_avail_idx == history[i].0.last_avail_idx
            &&& can_follow(wiring, replied[i], history[i].1, history[i + 1])
        }
}

proof fn lemma_history(
    wiring: Wiring,
    replied: Seq<VirtioBlkState>,
    history: Seq<Next>,
    ring: Seq<u8>,
    k: int,
)
    requires
        is_history(wiring, replied, history),
        1 <= k < history.len(),
        history[0].0.queue.ready,
        history[1] == on_guest_read(
            wiring,
            replied[0],
            GuestRead::AvailRing {
                last_avail_idx: history[0].0.last_avail_idx,
                queue_size: history[0].0.queue.size,
            },
            Ok(ring),
        ),
    ensures
        ring_index(history[k].1) == Some(u16_at(ring, 2)) || is_end(history[k].1),
        history[k].1 == success() ==> history[k].0.last_avail_idx == u16_at(ring, 2),
    decreases k,
{
    assert(replied[0].last_avail_idx == history[0].0.last_avail_idx);
    if k > 1 {
        lemma_history(wiring, replied, history, ring, k - 1);
        assert(replied[k - 1].last_avail_idx == history[k - 1].0.last_avail_idx);
        assert(can_follow(wiring, replied[k - 1], history[k - 1].1, history[k]));
        law_ring_index_kept(wiring, replied[k - 1], history[k - 1].1, history[k]);
    }
}

/// A notification that succeeds leaves the device level with the available ring
/// that it has read, whatever the later replies were.
pub proof fn law_level_with_ring(
    wiring: Wiring,
    replied: Seq<VirtioBlkState>,
    history: Seq<Next>,
    ring: Seq<u8>,
)
    requires
        is_history(wiring, replied, history),
        history.len() > 1,
        history[0].0.queue.ready,
        history[1] == on_guest_read(
            wiring,
            replied[0],
            GuestRead::AvailRing {
                last_avail_idx: history[0].0.last_avail_idx,
                queue_size: history[0].0.queue.size,
            },
            Ok(ring),
        ),
        history.last().1 == success(),
    ensures
        history.last().0.last_avail_idx == u16_at(ring, 2),
{
    lemma_history(wiring, replied, history, ring, history.len() - 1);
}

/// A request is never served twice: notified again after a notification that
/// succeeded, with an available ring whose index has not moved, the device reads
/// the ring and is done. It asks for no other work and its registers stay as
/// they are.
pub proof fn law_repeated_notification(
    wiring: Wiring,
    replied: Seq<VirtioBlkState>,
    history: Seq<Next>,
    ring: Seq<u8>,
    again: VirtioBlkState,
    replied_again: VirtioBlkState,
    ring_again: Seq<u8>,
)
    requires
        is_history(wiring, replied, history),
        history.len() > 1,
        history[0].0.queue.ready,
        history[1] == on_guest_read(
            wiring,
            replied[0],
            GuestRead::AvailRing {
                last_avail_idx: history[0].0.last_avail_idx,
                queue_size: history[0].0.queue.size,
            },
            Ok(ring),
        ),
        history.last().1 == success(),
        again.last_avail_idx == history.last().0.last_avail_idx,
        ring_again.len() >= 4,
        u16_at(ring_again, 2) == u16_at(ring, 2),
    ensures
        match on_notify(again) {
            Step::ReadGuest { then, .. } => on_guest_read(
                wiring,
                replied_again,
                then,
                Ok(ring_again),
            ) == (replied_again, success()),
            other => other == success(),
        },
{
    law_level_with_ring(wiring, replied, history, ring);
}

/// The step belongs to carrying out and answering a request, before the request
/// is reported.
pub open spec fn is_carrying_out(step: Step<Seq<u8>>) -> bool {
    match step {
        Step::ReadGuest { then, .. } => then is DescTable || then is Header || then is Payload,
        Step::WriteGuest { then, .. } => then is Data || then is Status,
        Step::ReadBackend { .. } => true,
        Step::WriteBackend { .. } => true,
        Step::FlushBackend { .. } => true,
        _ => false,
    }
}

/// The request that the step carries out, once its first descriptor is known.
pub open spec fn request_of(step: Step<Seq<u8>>) -> Option<Request<Seq<u8>>> {
    match step {
        Step::ReadGuest { then, .. } => match then {
            GuestRead::Header { request } => Some(request),
            GuestRead::Payload { request, .. } => Some(request),
            _ => None,
        },
        Step::WriteGuest { then, .. } => match then {
            GuestWrite::Data { request } => Some(request),
            _ => None,
        },
        Step::ReadBackend { then, .. } => Some(then.request),
        Step::WriteBackend { then, .. } => Some(then),
        Step::FlushBackend { then } => Some(then),
        _ => None,
    }
}

/// A descriptor of the chain that starts with `head` has the address `addr`.
pub open spec fn chain_points_to(table: Seq<u8>, head: VirtqDescriptor, addr: usize) -> bool {
    exists|k: nat|
        (#[trigger] link(table, head, k)) matches Some(desc) && desc.addr as usize == addr
}

/// What is read from the disk goes where a descriptor of the request points.
pub open spec fn is_aimed(step: Step<Seq<u8>>) -> bool {
    step matches Step::ReadBackend { then, .. } ==> chain_points_to(
        then.request.table,
        then.request.head,
        then.addr,
    )
}

/// Until it is reported a request leaves all registers as they are and interrupts
/// nobody, whatever the replies are, and the device writes guest memory only
/// where the descriptors of the request point.
pub proof fn law_requests_keep_registers(
    wiring: Wiring,
    state: VirtioBlkState,
    step: Step<Seq<u8>>,
    next: Next,
)
    requires
        is_carrying_out(step),
        is_aimed(step),
        can_follow(wiring, state, step, next),
    ensures
        next.0 == state,
        next.1 matches Step::WriteGuest { addr, .. } ==> (request_of(step) matches Some(request)
            && chain_points_to(request.table, request.head, addr)),
        is_aimed(next.1),
        is_carrying_out(next.1) || is_end(next.1) || (next.1 matches Step::ReadGuest { then, .. }
            && then is UsedHeader),
{
    if let Some(request) = request_of(step) {
        law_walk(request.table, request.head, Wanted::Writable);
        law_walk(request.table, request.head, Wanted::Last);
    }
}

/// The step does not lead to a write to the disk.
pub open spec fn spares_disk(step: Step<Seq<u8>>) -> bool {
    match step {
        Step::ReadGuest { then, .. } => !(then is Payload),
        Step::WriteBackend { .. } => false,
        _ => true,
    }
}

/// A device whose disk may only be read never has it written, whatever the
/// requests and the replies are.
pub proof fn law_readonly(
    wiring: Wiring,
    state: VirtioBlkState,
    step: Step<Seq<u8>>,
    next: Next,
)
    requires
        wiring.readonly,
        spares_disk(step),
        can_follow(wiring, state, step, next),
    ensures
        spares_disk(on_notify(state)),
        spares_disk(next.1),
{
}

} // verus!
