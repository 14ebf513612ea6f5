//! What the device asks of its surroundings while it serves the queue.
//!
//! Serving the queue alternates between decisions and outside work. Each
//! decision ends in a [`Step`]: either some outside work together with what
//! the device needs to remember until the reply comes, or the end.
//!
//! The types are generic over the container of bytes: executable code uses
//! `Vec<u8>`, specifications use `Seq<u8>`.

use vstd::prelude::*;

use crate::error::BlkError;
use crate::queue::VirtqDescriptor;

verus! {

/// A condition under which the device cannot go on: the guest, or the code
/// that serves the device, has broken the protocol in a way that has no answer.
#[derive(Clone, Copy, Debug, PartialEq, Eq, Structural)]
pub enum Fault {
    /// The available ring has no index.
    AvailRingTooShort,
    /// The used ring has no index.
    UsedRingTooShort,
    /// The queue has no entries.
    EmptyQueue,
    /// A descriptor chain never ends.
    EndlessChain,
    /// The byte offset of a sector does not fit 64 bits.
    SectorOutOfRange,
    /// An entry of the used ring lies beyond the address space.
    AddressOutOfRange,
}

/// How far the device has come with the requests of one notification.
pub struct QueueScan<B> {
    /// The available ring, as it was when the device was notified.
    pub ring: B,
    /// Size of the queue at that time.
    pub queue_size: u16,
    /// Ring index of the request that is served.
    pub next: u16,
    /// Ring index at which the new requests end.
    pub avail_idx: u16,
}

/// A request that is being served.
pub struct Request<B> {
    /// The notification that it belongs to.
    pub scan: QueueScan<B>,
    /// Index of its first descriptor.
    pub head_idx: u16,
    /// The descriptor table.
    pub table: B,
    /// Its first descriptor.
    pub head: VirtqDescriptor,
}

/// What the bytes that are read from the guest are.
pub enum GuestRead<B> {
    /// The available ring.
    AvailRing {
        /// Ring index up to which requests have been served.
        last_avail_idx: u16,
        /// Size of the queue.
        queue_size: u16,
    },
    /// The descriptor table.
    DescTable {
        /// The notification that is served.
        scan: QueueScan<B>,
        /// Index of the first descriptor of the request.
        head_idx: u16,
    },
    /// The header of a request.
    Header {
        /// The request.
        request: Request<B>,
    },
    /// The data of a write request.
    Payload {
        /// The request.
        request: Request<B>,
        /// Where the data goes.
        sector: u64,
    },
    /// The first bytes of the used ring.
    UsedHeader {
        /// The notification that is served.
        scan: QueueScan<B>,
        /// Index of the first descriptor of the request.
        head_idx: u16,
        /// Address of the used ring.
        used: usize,
        /// Size of the queue.
        queue_size: u16,
    },
}

/// What the bytes that are written to the guest are.
pub enum GuestWrite<B> {
    /// The data that a request asks for.
    Data {
        /// The request.
        request: Request<B>,
    },
    /// The status byte of a request.
    Status {
        /// The notification that is served.
        scan: QueueScan<B>,
        /// Index of the first descriptor of the request.
        head_idx: u16,
    },
    /// An entry of the used ring.
    UsedElem {
        /// The notification that is served.
        scan: QueueScan<B>,
        /// Address of the used ring's index.
        idx_addr: usize,
        /// New value of the used ring's index.
        used_idx: u16,
    },
    /// The index of the used ring.
    UsedIdx {
        /// The notification that is served.
        scan: QueueScan<B>,
    },
}

/// Where the bytes that are read from the disk go.
pub struct ReadTarget<B> {
    /// The request.
    pub request: Request<B>,
    /// Guest physical address of the buffer.
    pub addr: usize,
}

/// The next thing to do while the queue is served.
#[allow(inconsistent_fields)]
pub enum Step<B> {
    /// Read `len` bytes of guest memory.
    ReadGuest {
        /// Guest physical address.
        addr: usize,
        /// Number of bytes.
        len: usize,
        /// What they are.
        then: GuestRead<B>,
    },
    /// Write to guest memory.
    WriteGuest {
        /// Guest physical address.
        addr: usize,
        /// The bytes.
        data: B,
        /// What they are.
        then: GuestWrite<B>,
    },
    /// Read `len` bytes of the disk.
    ReadBackend {
        /// Offset in bytes.
        offset: u64,
        /// Number of bytes.
        len: usize,
        /// Where they go.
        then: ReadTarget<B>,
    },
    /// Write to the disk.
    WriteBackend {
        /// Offset in bytes.
        offset: u64,
        /// The bytes.
        data: B,
        /// The request that is served.
        then: Request<B>,
    },
    /// Flush the disk.
    FlushBackend {
        /// The request that is served.
        then: Request<B>,
    },
    /// Inject an interrupt into the guest.
    InjectIrq {
        /// Number of the interrupt.
        irq: usize,
        /// The notification that is served.
        then: QueueScan<B>,
    },
    /// The notification has been dealt with.
    Finish {
        /// Whether all requests could be served.
        result: Result<(), BlkError>,
    },
    /// The device cannot go on.
    Fault {
        /// The reason.
        fault: Fault,
    },
}

impl View for QueueScan<Vec<u8>> {
    type V = QueueScan<Seq<u8>>;

    open spec fn view(&self) -> QueueScan<Seq<u8>> {
        QueueScan {
            ring: self.ring@,
            queue_size: self.queue_size,
            next: self.next,
            avail_idx: self.avail_idx,
        }
    }
}

impl View for Request<Vec<u8>> {
    type V = Request<Seq<u8>>;

    open spec fn view(&self) -> Request<Seq<u8>> {
        Request {
            scan: self.scan@,
            head_idx: self.head_idx,
            table: self.table@,
            head: self.head,
        }
    }
}

impl View for GuestRead<Vec<u8>> {
    type V = GuestRead<Seq<u8>>;

    open spec fn view(&self) -> GuestRead<Seq<u8>> {
        match *self {
            GuestRead::AvailRing { last_avail_idx, queue_size } => GuestRead::AvailRing {
                last_avail_idx,
                queue_size,
            },
            GuestRead::DescTable { scan, head_idx } => GuestRead::DescTable {
                scan: scan@,
                head_idx,
            },
            GuestRead::Header { request } => GuestRead::Header { request: request@ },
            GuestRead::Payload { request, sector } => GuestRead::Payload {
                request: request@,
                sector,
            },
            GuestRead::UsedHeader { scan, head_idx, used, queue_size } => GuestRead::UsedHeader {
                scan: scan@,
                head_idx,
                used,
                queue_size,
            },
        }
    }
}

impl View for GuestWrite<Vec<u8>> {
    type V = GuestWrite<Seq<u8>>;

    open spec fn view(&self) -> GuestWrite<Seq<u8>> {
        match *self {
            GuestWrite::Data { request } => GuestWrite::Data { request: request@ },
            GuestWrite::Status { scan, head_idx } => GuestWrite::Status { scan: scan@, head_idx },
            GuestWrite::UsedElem { scan, idx_addr, used_idx } => GuestWrite::UsedElem {
                scan: scan@,
                idx_addr,
                used_idx,
            },
            GuestWrite::UsedIdx { scan } => GuestWrite::UsedIdx { scan: scan@ },
        }
    }
}

impl View for ReadTarget<Vec<u8>> {
    type V = ReadTarget<Seq<u8>>;

    open spec fn view(&self) -> ReadTarget<Seq<u8>> {
        ReadTarget { request: self.request@, addr: self.addr }
    }
}

impl View for Step<Vec<u8>> {
    type V = Step<Seq<u8>>;

    open spec fn view(&self) -> Step<Seq<u8>> {
        match *self {
            Step::ReadGuest { addr, len, then } => Step::ReadGuest { addr, len, then: then@ },
            Step::WriteGuest { addr, data, then } => Step::WriteGuest {
                addr,
                data: data@,
                then: then@,
            },
            Step::ReadBackend { offset, len, then } => Step::ReadBackend {
                offset,
                len,
                then: then@,
            },
            Step::WriteBackend { offset, data, then } => Step::WriteBackend {
                offset,
                data: data@,
                then: then@,
            },
            Step::FlushBackend { then } => Step::FlushBackend { then: then@ },
            Step::InjectIrq { irq, then } => Step::InjectIrq { irq, then: then@ },
            Step::Finish { result } => Step::Finish { result },
            Step::Fault { fault } => Step::Fault { fault },
        }
    }
}

/// A reply with its bytes as a sequence.
pub open spec fn reply_view(reply: Result<Vec<u8>, BlkError>) -> Result<Seq<u8>, BlkError> {
    match reply {
        Ok(bytes) => Ok(bytes@),
        Err(error) => Err(error),
    }
}

} // verus!
