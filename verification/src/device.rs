//! The virtio-blk device.

use vstd::prelude::*;
use vstd::utf8::encode_utf8;

use crate::bytes::{push_u16, push_u32, read_u16, read_u32, read_u64, u16_bytes};
use crate::config::{configured_number, parse_number, VirtioBlkMmioDeviceConfig};
use crate::error::BlkError;
use crate::protocol::{
    on_avail_ring, on_backend_data, on_carried_out, on_guest_read, on_guest_write, on_header,
    on_id_request, on_irq, on_next_request, on_notify, on_payload, on_read_request, on_request,
    on_served, on_status, on_table, on_used_header, on_write_request, serial_part, used_elem,
    zeroed_behind, Wiring, REQUEST_HEADER_SIZE, RING_HEADER_SIZE, USED_LEN,
};
use crate::queue::{find_descriptor, read_descriptor, Walk, Wanted, DESCRIPTOR_SIZE};
use crate::registers::{
    config_value, read_config, read_register, register, stored, truncate_value, truncated,
    write_register, AccessWidth, VirtioBlkState,
};
use crate::step::{
    reply_view, Fault, GuestRead, GuestWrite, QueueScan, ReadTarget, Request, Step,
};
use crate::virtio::blk::{
    VIRTIO_BLK_T_FLUSH, VIRTIO_BLK_T_GET_ID, VIRTIO_BLK_T_IN, VIRTIO_BLK_T_OUT,
};
use crate::virtio::blk_status::{
    VIRTIO_BLK_S_IOERR, VIRTIO_BLK_S_OK, VIRTIO_BLK_S_UNSUPP,
};
use crate::virtio::mmio;

verus! {

/// Size of the disk in memory that a device without a disk file gets.
pub const DEFAULT_MEMORY_SIZE: u64 = 0x4000_0000;

/// The disk that a device is put in front of.
pub enum BackendChoice {
    /// The file at `path`.
    File {
        /// Path of the file.
        path: String,
    },
    /// A disk in memory.
    Memory {
        /// Size in bytes.
        size: u64,
    },
}

/// A virtio-blk device: what of it never changes. Its registers are a
/// [`VirtioBlkState`].
pub struct VirtioBlkDevice {
    /// Guest physical address of the register window.
    pub base_gpa: usize,
    /// Size of the register window in bytes.
    pub size: usize,
    /// Interrupt that the device raises.
    pub irq_id: usize,
    /// The disk.
    pub backend: BackendChoice,
    /// Whether the guest may only read the disk.
    pub readonly: bool,
    /// Serial number.
    pub serial: String,
}

/// What a write to the register window leads to.
pub enum WriteOutcome {
    /// The value has been stored.
    Stored,
    /// The device has been notified and starts serving its queue.
    Notified {
        /// The first thing to do.
        step: Step<Vec<u8>>,
    },
}

impl VirtioBlkDevice {
    /// What of the device never changes, with a disk of the given sector size.
    pub open spec fn wiring(&self, block_size: u64) -> Wiring {
        Wiring {
            irq: self.irq_id,
            block_size,
            readonly: self.readonly,
            serial: encode_utf8(self.serial@),
        }
    }

    /// A device as the configuration describes it. A disk file needs file
    /// system support; a disk in memory does not.
    pub fn new(config: &VirtioBlkMmioDeviceConfig, fs_support: bool) -> (result: Result<
        Self,
        BlkError,
    >)
        ensures
            ({
                let base = configured_number(config.mmio_base@);
                let size = configured_number(config.mmio_size@);
                match result {
                    Ok(device) => {
                        &&& Some(device.base_gpa) == base
                        &&& Some(device.size) == size
                        &&& device.irq_id == config.interrupt_number
                        &&& match device.backend {
                            BackendChoice::Memory { size } => config.wants_memory() && size
                                == DEFAULT_MEMORY_SIZE,
                            BackendChoice::File { path } => !config.wants_memory() && fs_support
                                && path@ == config.backend_path@,
                        }
                        &&& device.readonly == config.readonly
                        &&& device.serial@ == config.serial@
                    },
                    Err(error) => {
                        if base is None || size is None {
                            error == BlkError::InvalidInput
                        } else {
                            !config.wants_memory() && !fs_support && error
                                == BlkError::Unsupported
                        }
                    },
                }
            }),
    {
        let base_gpa: usize = match parse_number(config.mmio_base.as_str()) {
            Some(base) => base,
            None => {
                return Err(BlkError::InvalidInput);
            },
        };
        let size: usize = match parse_number(config.mmio_size.as_str()) {
            Some(size) => size,
            None => {
                return Err(BlkError::InvalidInput);
            },
        };
        let irq_id = config.interrupt_number;
        let backend = if config.is_memory() {
            BackendChoice::Memory { size: DEFAULT_MEMORY_SIZE }
        } else if fs_support {
            BackendChoice::File { path: config.backend_path.clone() }
        } else {
            return Err(BlkError::Unsupported);
        };
        Ok(
            VirtioBlkDevice {
                base_gpa,
                size,
                irq_id,
                backend,
                readonly: config.readonly,
                serial: config.serial.clone(),
            },
        )
    }

    /// First address of the register window, and the address behind it.
    pub fn address_range(&self) -> (range: (usize, usize))
        requires
            self.base_gpa + self.size <= usize::MAX,
        ensures
            range.0 == self.base_gpa,
            range.1 == self.base_gpa + self.size,
    {
        (self.base_gpa, self.base_gpa + self.size)
    }

    /// The driver reads the register window; the disk has `disk_size` bytes.
    pub fn handle_read(
        &self,
        state: &VirtioBlkState,
        disk_size: u64,
        addr: usize,
        width: AccessWidth,
    ) -> (result: Result<usize, BlkError>)
        requires
            self.base_gpa <= addr,
        ensures
            ({
                let offset = (addr - self.base_gpa) as usize;
                result == (if offset >= mmio::CONFIG {
                    Ok(config_value(disk_size, (offset - mmio::CONFIG) as usize, width))
                } else {
                    match register(*state, offset) {
                        Some(value) => Ok(truncated(value, width)),
                        None => Err(BlkError::InvalidInput),
                    }
                })
            }),
            addr - self.base_gpa < 0x100 ==> (result matches Ok(seen) ==> {
                let content = register(*state, (addr - self.base_gpa) as usize).unwrap() as int;
                seen == match width {
                    AccessWidth::Byte => content % 0x100,
                    AccessWidth::Word => content % 0x1_0000,
                    AccessWidth::Dword => content % 0x1_0000_0000,
                    AccessWidth::Qword => content,
                }
            }),
    {
        let offset: usize = addr - self.base_gpa;
        if offset >= mmio::CONFIG {
            return Ok(read_config(disk_size, offset - mmio::CONFIG, width));
        }
        match read_register(state, offset) {
            Some(value) => Ok(truncate_value(value, width)),
            None => Err(BlkError::InvalidInput),
        }
    }

    /// The driver writes the register window. Only the low 32 bits of the value
    /// count.
    pub fn handle_write(
        &self,
        state: &mut VirtioBlkState,
        addr: usize,
        _width: AccessWidth,
        value: usize,
    ) -> (result: Result<WriteOutcome, BlkError>)
        requires
            self.base_gpa <= addr,
        ensures
            ({
                let offset = (addr - self.base_gpa) as usize;
                let after = stored(*old(state), offset, value as u32);
                if offset == mmio::QUEUE_NOTIFY {
                    &&& *final(state) == *old(state)
                    &&& result matches Ok(WriteOutcome::Notified { step })
                    &&& step@ == on_notify(*old(state))
                } else if after is Some {
                    &&& Some(*final(state)) == after
                    &&& result matches Ok(WriteOutcome::Stored)
                } else {
                    &&& *final(state) == *old(state)
                    &&& result matches Err(error)
                    &&& error == BlkError::InvalidInput
                }
            }),
    {
        let offset: usize = addr - self.base_gpa;
        if offset == mmio::QUEUE_NOTIFY {
            return Ok(WriteOutcome::Notified { step: self.process_queue(state) });
        }
        if write_register(state, offset, value as u32) {
            Ok(WriteOutcome::Stored)
        } else {
            Err(BlkError::InvalidInput)
        }
    }

    /// What the driver is told of a notification that has been dealt with: any
    /// error makes the register access invalid.
    pub fn notify_result(result: Result<(), BlkError>) -> (told: Result<(), BlkError>)
        ensures
            told == (match result {
                Ok(_) => Ok(()),
                Err(_) => Err(BlkError::InvalidInput),
            }),
    {
        match result {
            Ok(_) => Ok(()),
            Err(_) => Err(BlkError::InvalidInput),
        }
    }

    /// Starts serving the queue.
    pub fn process_queue(&self, state: &VirtioBlkState) -> (step: Step<Vec<u8>>)
        ensures
            step@ == on_notify(*state),
    {
        if !state.queue.ready {
            return Step::Finish { result: Ok(()) };
        }
        Step::ReadGuest {
            addr: state.queue.avail,
            len: RING_HEADER_SIZE + state.queue.size as usize * 2,
            then: GuestRead::AvailRing {
                last_avail_idx: state.last_avail_idx,
                queue_size: state.queue.size,
            },
        }
    }

    /// Goes on after the available ring has been read.
    fn process_avail_ring(
        &self,
        state: &mut VirtioBlkState,
        last_avail_idx: u16,
        queue_size: u16,
        reply: Result<Vec<u8>, BlkError>,
    ) -> (step: Step<Vec<u8>>)
        ensures
            (*final(state), step@) == on_avail_ring(
                *old(state),
                last_avail_idx,
                queue_size,
                reply_view(reply),
            ),
    {
        let ring = match reply {
            Ok(ring) => ring,
            Err(error) => {
                return Step::Finish { result: Err(error) };
            },
        };
        if ring.len() < RING_HEADER_SIZE {
            return Step::Fault { fault: Fault::AvailRingTooShort };
        }
        let avail_idx: u16 = read_u16(ring.as_slice(), 2);
        if avail_idx == last_avail_idx {
            return Step::Finish { result: Ok(()) };
        }
        self.process_next(state, QueueScan { ring, queue_size, next: last_avail_idx, avail_idx })
    }

    /// Takes up the next request, or records that there is none left.
    fn process_next(&self, state: &mut VirtioBlkState, scan: QueueScan<Vec<u8>>) -> (step: Step<
        Vec<u8>,
    >)
        ensures
            (*final(state), step@) == on_next_request(*old(state), scan@),
    {
        if scan.next == scan.avail_idx {
            state.last_avail_idx = scan.avail_idx;
            return Step::Finish { result: Ok(()) };
        }
        if scan.queue_size == 0 {
            return Step::Fault { fault: Fault::EmptyQueue };
        }
        let slot: u16 = scan.next % scan.queue_size;
        let at: usize = RING_HEADER_SIZE + slot as usize * 2;
        if at + 2 > scan.ring.len() {
            state.last_avail_idx = scan.avail_idx;
            return Step::Finish { result: Ok(()) };
        }
        let head_idx: u16 = read_u16(scan.ring.as_slice(), at);
        self.process_request(state, scan, head_idx)
    }

    /// Starts serving a request.
    fn process_request(
        &self,
        state: &VirtioBlkState,
        scan: QueueScan<Vec<u8>>,
        head_idx: u16,
    ) -> (step: Step<Vec<u8>>)
        ensures
            step@ == on_request(*state, scan@, head_idx),
    {
        Step::ReadGuest {
            addr: state.queue.desc,
            len: DESCRIPTOR_SIZE * state.queue.size as usize,
            then: GuestRead::DescTable { scan, head_idx },
        }
    }

    /// Goes on with a request after the descriptor table has been read.
    fn process_table(
        &self,
        scan: QueueScan<Vec<u8>>,
        head_idx: u16,
        reply: Result<Vec<u8>, BlkError>,
    ) -> (step: Step<Vec<u8>>)
        ensures
            step@ == on_table(scan@, head_idx, reply_view(reply)),
    {
        let table = match reply {
            Ok(table) => table,
            Err(error) => {
                return Step::Finish { result: Err(error) };
            },
        };
        match read_descriptor(table.as_slice(), head_idx) {
            None => Step::Finish { result: Err(BlkError::InvalidInput) },
            Some(head) => Step::ReadGuest {
                addr: head.addr as usize,
                len: head.len as usize,
                then: GuestRead::Header { request: Request { scan, head_idx, table, head } },
            },
        }
    }

    /// Goes on with a request after its header has been read.
    fn process_header(
        &self,
        state: &VirtioBlkState,
        block_size: u64,
        request: Request<Vec<u8>>,
        reply: Result<Vec<u8>, BlkError>,
    ) -> (step: Step<Vec<u8>>)
        ensures
            step@ == on_header(self.wiring(block_size), *state, request@, reply_view(reply)),
    {
        let header = match reply {
            Ok(header) => header,
            Err(error) => {
                return Step::Finish { result: Err(error) };
            },
        };
        if header.len() < REQUEST_HEADER_SIZE {
            return Step::Finish { result: Err(BlkError::InvalidInput) };
        }
        let req_type: u32 = read_u32(header.as_slice(), 0);
        let sector: u64 = read_u64(header.as_slice(), 8);
        if req_type == VIRTIO_BLK_T_IN {
            self.handle_read_request(state, block_size, request, sector)
        } else if req_type == VIRTIO_BLK_T_OUT {
            self.handle_write_request(state, request, sector)
        } else if req_type == VIRTIO_BLK_T_FLUSH {
            Step::FlushBackend { then: request }
        } else if req_type == VIRTIO_BLK_T_GET_ID {
            self.handle_id_request(state, request)
        } else {
            self.finish_request(state, request, VIRTIO_BLK_S_UNSUPP)
        }
    }

    /// Starts a read request.
    fn handle_read_request(
        &self,
        state: &VirtioBlkState,
        block_size: u64,
        request: Request<Vec<u8>>,
        sector: u64,
    ) -> (step: Step<Vec<u8>>)
        ensures
            step@ == on_read_request(block_size, *state, request@, sector),
    {
        match find_descriptor(request.table.as_slice(), &request.head, Wanted::Writable) {
            Walk::Endless => Step::Fault { fault: Fault::EndlessChain },
            Walk::Absent => self.finish_request(state, request, VIRTIO_BLK_S_IOERR),
            Walk::Found(desc) => match sector.checked_mul(block_size) {
                None => Step::Fault { fault: Fault::SectorOutOfRange },
                Some(offset) => Step::ReadBackend {
                    offset,
                    len: desc.len as usize,
                    then: ReadTarget { request, addr: desc.addr as usize },
                },
            },
        }
    }

    /// Starts a request for the serial number.
    fn handle_id_request(
        &self,
        state: &VirtioBlkState,
        request: Request<Vec<u8>>,
    ) -> (step: Step<Vec<u8>>)
        ensures
            step@ == on_id_request(encode_utf8(self.serial@), *state, request@),
    {
        match find_descriptor(request.table.as_slice(), &request.head, Wanted::Writable) {
            Walk::Endless => Step::Fault { fault: Fault::EndlessChain },
            Walk::Absent => self.finish_request(state, request, VIRTIO_BLK_S_UNSUPP),
            Walk::Found(desc) => {
                let mut data: Vec<u8> = Vec::new();
                data.extend_from_slice(self.serial.as_str().as_bytes());
                data.truncate(desc.len as usize);
                assert(data@ =~= serial_part(encode_utf8(self.serial@), desc.len));
                Step::WriteGuest {
                    addr: desc.addr as usize,
                    data,
                    then: GuestWrite::Data { request },
                }
            },
        }
    }

    /// Starts a write request.
    fn handle_write_request(
        &self,
        state: &VirtioBlkState,
        request: Request<Vec<u8>>,
        sector: u64,
    ) -> (step: Step<Vec<u8>>)
        ensures
            step@ == on_write_request(self.readonly, *state, request@, sector),
    {
        if self.readonly {
            return self.finish_request(state, request, VIRTIO_BLK_S_IOERR);
        }
        let wanted = Wanted::Payload { head_addr: request.head.addr };
        match find_descriptor(request.table.as_slice(), &request.head, wanted) {
            Walk::Endless => Step::Fault { fault: Fault::EndlessChain },
            Walk::Absent => self.finish_request(state, request, VIRTIO_BLK_S_IOERR),
            Walk::Found(desc) => Step::ReadGuest {
                addr: desc.addr as usize,
                len: desc.len as usize,
                then: GuestRead::Payload { request, sector },
            },
        }
    }

    /// Goes on with a write request after its data has been read.
    fn process_payload(
        &self,
        block_size: u64,
        request: Request<Vec<u8>>,
        sector: u64,
        reply: Result<Vec<u8>, BlkError>,
    ) -> (step: Step<Vec<u8>>)
        ensures
            step@ == on_payload(block_size, request@, sector, reply_view(reply)),
    {
        match reply {
            Err(error) => Step::Finish { result: Err(error) },
            Ok(data) => match sector.checked_mul(block_size) {
                None => Step::Fault { fault: Fault::SectorOutOfRange },
                Some(offset) => Step::WriteBackend { offset, data, then: request },
            },
        }
    }

    /// Answers a request whose status is known.
    fn finish_request(
        &self,
        state: &VirtioBlkState,
        request: Request<Vec<u8>>,
        status: u8,
    ) -> (step: Step<Vec<u8>>)
        ensures
            step@ == on_status(*state, request@, status),
    {
        match find_descriptor(request.table.as_slice(), &request.head, Wanted::Last) {
            Walk::Endless => Step::Fault { fault: Fault::EndlessChain },
            Walk::Absent => self.update_used_ring(state, request.scan, request.head_idx),
            Walk::Found(desc) => {
                let mut data: Vec<u8> = Vec::new();
                data.push(status);
                assert(data@ =~= seq![status]);
                Step::WriteGuest {
                    addr: desc.addr as usize,
                    data,
                    then: GuestWrite::Status { scan: request.scan, head_idx: request.head_idx },
                }
            },
        }
    }

    /// Starts reporting a request in the used ring.
    fn update_used_ring(
        &self,
        state: &VirtioBlkState,
        scan: QueueScan<Vec<u8>>,
        head_idx: u16,
    ) -> (step: Step<Vec<u8>>)
        ensures
            step@ == on_served(*state, scan@, head_idx),
    {
        Step::ReadGuest {
            addr: state.queue.used,
            len: RING_HEADER_SIZE,
            then: GuestRead::UsedHeader {
                scan,
                head_idx,
                used: state.queue.used,
                queue_size: state.queue.size,
            },
        }
    }

    /// Goes on reporting a request after the index of the used ring has been
    /// read.
    fn process_used_header(
        &self,
        scan: QueueScan<Vec<u8>>,
        head_idx: u16,
        used: usize,
        queue_size: u16,
        reply: Result<Vec<u8>, BlkError>,
    ) -> (step: Step<Vec<u8>>)
        ensures
            step@ == on_used_header(scan@, head_idx, used, queue_size, reply_view(reply)),
    {
        let header = match reply {
            Ok(header) => header,
            Err(error) => {
                return Step::Finish { result: Err(error) };
            },
        };
        if header.len() < RING_HEADER_SIZE {
            return Step::Fault { fault: Fault::UsedRingTooShort };
        }
        if queue_size == 0 {
            return Step::Fault { fault: Fault::EmptyQueue };
        }
        let used_idx: u16 = read_u16(header.as_slice(), 2);
        let slot: u16 = used_idx % queue_size;
        let elem_offset: usize = RING_HEADER_SIZE + slot as usize * 8;
        match used.checked_add(elem_offset) {
            None => Step::Fault { fault: Fault::AddressOutOfRange },
            Some(addr) => {
                let mut data: Vec<u8> = Vec::new();
                push_u32(&mut data, head_idx as u32);
                push_u32(&mut data, USED_LEN);
                assert(data@ =~= used_elem(head_idx));
                Step::WriteGuest {
                    addr,
                    data,
                    then: GuestWrite::UsedElem {
                        scan,
                        idx_addr: used + 2,
                        used_idx: used_idx.wrapping_add(1),
                    },
                }
            },
        }
    }

    /// Goes on after guest memory has been read.
    pub fn guest_read_done(
        &self,
        state: &mut VirtioBlkState,
        block_size: u64,
        then: GuestRead<Vec<u8>>,
        reply: Result<Vec<u8>, BlkError>,
    ) -> (step: Step<Vec<u8>>)
        ensures
            (*final(state), step@) == on_guest_read(
                self.wiring(block_size),
                *old(state),
                then@,
                reply_view(reply),
            ),
    {
        match then {
            GuestRead::AvailRing { last_avail_idx, queue_size } => {
                self.process_avail_ring(state, last_avail_idx, queue_size, reply)
            },
            GuestRead::DescTable { scan, head_idx } => self.process_table(scan, head_idx, reply),
            GuestRead::Header { request } => {
                self.process_header(state, block_size, request, reply)
            },
            GuestRead::Payload { request, sector } => {
                self.process_payload(block_size, request, sector, reply)
            },
            GuestRead::UsedHeader { scan, head_idx, used, queue_size } => {
                self.process_used_header(scan, head_idx, used, queue_size, reply)
            },
        }
    }

    /// Goes on after guest memory has been written.
    pub fn guest_write_done(
        &self,
        state: &mut VirtioBlkState,
        then: GuestWrite<Vec<u8>>,
        reply: Result<(), BlkError>,
    ) -> (step: Step<Vec<u8>>)
        ensures
            (*final(state), step@) == on_guest_write(*old(state), self.irq_id, then@, reply),
    {
        if let Err(error) = reply {
            return Step::Finish { result: Err(error) };
        }
        match then {
            GuestWrite::Data { request } => self.finish_request(state, request, VIRTIO_BLK_S_OK),
            GuestWrite::Status { scan, head_idx } => self.update_used_ring(state, scan, head_idx),
            GuestWrite::UsedElem { scan, idx_addr, used_idx } => {
                let mut data: Vec<u8> = Vec::new();
                push_u16(&mut data, used_idx);
                assert(data@ =~= u16_bytes(used_idx));
                Step::WriteGuest { addr: idx_addr, data, then: GuestWrite::UsedIdx { scan } }
            },
            GuestWrite::UsedIdx { scan } => {
                state.interrupt_status = state.interrupt_status | 1;
                Step::InjectIrq { irq: self.irq_id, then: scan }
            },
        }
    }

    /// Goes on after the disk has been read into `data`; the reply tells how
    /// many bytes it delivered. The guest gets zeros for those that it did not.
    pub fn backend_read_done(
        &self,
        then: ReadTarget<Vec<u8>>,
        data: Vec<u8>,
        reply: Result<usize, BlkError>,
    ) -> (step: Step<Vec<u8>>)
        ensures
            step@ == on_backend_data(then@, data@, reply),
    {
        match reply {
            Err(error) => Step::Finish { result: Err(error) },
            Ok(count) => {
                let ghost read = data@;
                let mut data = data;
                let len: usize = data.len();
                if count < len {
                    data.truncate(count);
                    data.resize(len, 0);
                    assert forall|i: int| 0 <= i < count implies data@[i] == read[i] by {
                        assert(data@.subrange(0, count as int)[i] == read[i]);
                    }
                }
                assert(data@ =~= zeroed_behind(read, count));
                Step::WriteGuest {
                    addr: then.addr,
                    data,
                    then: GuestWrite::Data { request: then.request },
                }
            },
        }
    }

    /// Goes on after the disk has been written.
    pub fn backend_write_done(
        &self,
        state: &VirtioBlkState,
        then: Request<Vec<u8>>,
        reply: Result<usize, BlkError>,
    ) -> (step: Step<Vec<u8>>)
        ensures
            step@ == on_carried_out(*state, then@, reply),
    {
        match reply {
            Err(error) => Step::Finish { result: Err(error) },
            Ok(_) => self.finish_request(state, then, VIRTIO_BLK_S_OK),
        }
    }

    /// Goes on after the disk has been flushed.
    pub fn backend_flush_done(
        &self,
        state: &VirtioBlkState,
        then: Request<Vec<u8>>,
        reply: Result<(), BlkError>,
    ) -> (step: Step<Vec<u8>>)
        ensures
            step@ == on_carried_out(*state, then@, reply),
    {
        match reply {
            Err(error) => Step::Finish { result: Err(error) },
            Ok(_) => self.finish_request(state, then, VIRTIO_BLK_S_OK),
        }
    }

    /// Goes on after the interrupt has been injected.
    pub fn irq_done(
        &self,
        state: &mut VirtioBlkState,
        then: QueueScan<Vec<u8>>,
        reply: Result<(), BlkError>,
    ) -> (step: Step<Vec<u8>>)
        ensures
            (*final(state), step@) == on_irq(*old(state), then@, reply),
    {
        if let Err(error) = reply {
            return Step::Finish { result: Err(error) };
        }
        let mut scan = then;
        scan.next = scan.next.wrapping_add(1);
        self.process_next(state, scan)
    }
}

} // verus!
