//! Whole notifications, served against a guest in memory.

use axvirtio_blk::backend::{fits_address_space, BlockBackend, MemoryBackend};
use axvirtio_blk::config::VirtioBlkMmioDeviceConfig;
use axvirtio_blk::device::{VirtioBlkDevice, WriteOutcome};
use axvirtio_blk::error::BlkError;
use axvirtio_blk::registers::{AccessWidth, VirtioBlkState};
use axvirtio_blk::step::{Fault, Step};
use axvirtio_blk::virtio::{blk, blk_status, desc_flags, mmio};

const BASE: usize = 0x0a00_0000;
const IRQ: usize = 48;
const DESC: usize = 0x1000;
const AVAIL: usize = 0x2000;
const USED: usize = 0x3000;
const HEADER: usize = 0x4000;
const DATA: usize = 0x5000;
const STATUS: usize = 0x6000;
const NEXT: u16 = desc_flags::VIRTQ_DESC_F_NEXT;
const WRITE: u16 = desc_flags::VIRTQ_DESC_F_WRITE;

#[derive(Debug, PartialEq)]
enum End {
    Told(Result<(), BlkError>),
    Stopped(Fault),
}

struct Rig {
    device: VirtioBlkDevice,
    state: VirtioBlkState,
    guest: Vec<u8>,
    disk: MemoryBackend,
    irqs: Vec<usize>,
    /// Interrupt status seen when each interrupt was injected.
    pending: Vec<u32>,
    irq_error: Option<BlkError>,
    flushes: usize,
    /// Pieces of outside work done so far.
    turns: usize,
    avail_idx: u16,
    queue_size: u16,
}

impl Rig {
    fn new(queue_size: u16) -> Rig {
        Rig::with(queue_size, false, "vblk0")
    }

    fn with(queue_size: u16, readonly: bool, serial: &str) -> Rig {
        let config = VirtioBlkMmioDeviceConfig {
            mmio_base: String::from("0x0a000000"),
            mmio_size: String::from("0x200"),
            interrupt_number: IRQ,
            backend_type: String::from("memory"),
            backend_path: String::new(),
            readonly,
            serial: String::from(serial),
        };
        let device = match VirtioBlkDevice::new(&config, false) {
            Ok(device) => device,
            Err(error) => panic!("{:?}", error),
        };
        let mut rig = Rig {
            device,
            state: VirtioBlkState::new(),
            guest: vec![0u8; 0x10000],
            disk: MemoryBackend::new(16 * 512),
            irqs: Vec::new(),
            pending: Vec::new(),
            irq_error: None,
            flushes: 0,
            turns: 0,
            avail_idx: 0,
            queue_size,
        };
        rig.store(mmio::QUEUE_SEL, 0);
        rig.store(mmio::QUEUE_NUM, queue_size as usize);
        rig.store(mmio::QUEUE_DESC_LOW, DESC);
        rig.store(mmio::QUEUE_DESC_HIGH, 0);
        rig.store(mmio::QUEUE_AVAIL_LOW, AVAIL);
        rig.store(mmio::QUEUE_AVAIL_HIGH, 0);
        rig.store(mmio::QUEUE_USED_LOW, USED);
        rig.store(mmio::QUEUE_USED_HIGH, 0);
        rig.store(mmio::QUEUE_READY, 1);
        rig
    }

    fn store(&mut self, offset: usize, value: usize) {
        let result =
            self.device.handle_write(&mut self.state, BASE + offset, AccessWidth::Dword, value);
        assert!(matches!(result, Ok(WriteOutcome::Stored)));
    }

    fn load(&self, offset: usize) -> Result<usize, BlkError> {
        self.device.handle_read(&self.state, self.disk.size(), BASE + offset, AccessWidth::Dword)
    }

    fn put(&mut self, addr: usize, bytes: &[u8]) {
        self.guest[addr..addr + bytes.len()].copy_from_slice(bytes);
    }

    fn u16_in_guest(&self, addr: usize) -> u16 {
        u16::from_le_bytes([self.guest[addr], self.guest[addr + 1]])
    }

    fn desc(&mut self, idx: usize, addr: usize, len: u32, flags: u16, next: u16) {
        let at = DESC + 16 * idx;
        self.put(at, &(addr as u64).to_le_bytes());
        self.put(at + 8, &len.to_le_bytes());
        self.put(at + 12, &flags.to_le_bytes());
        self.put(at + 14, &next.to_le_bytes());
    }

    fn header(&mut self, addr: usize, req_type: u32, sector: u64) {
        self.put(addr, &req_type.to_le_bytes());
        self.put(addr + 4, &[0u8; 4]);
        self.put(addr + 8, &sector.to_le_bytes());
    }

    fn offer(&mut self, head_idx: u16) {
        let slot = (self.avail_idx % self.queue_size) as usize;
        self.put(AVAIL + 4 + 2 * slot, &head_idx.to_le_bytes());
        self.avail_idx = self.avail_idx.wrapping_add(1);
        let idx = self.avail_idx;
        self.put(AVAIL + 2, &idx.to_le_bytes());
    }

    /// A chain of header, data and status in descriptors `at`, `at + 1` and
    /// `at + 2`.
    fn request(&mut self, at: u16, req_type: u32, sector: u64, len: u32) {
        let i = at as usize;
        let data_flags = match req_type {
            blk::VIRTIO_BLK_T_IN | blk::VIRTIO_BLK_T_GET_ID => NEXT | WRITE,
            _ => NEXT,
        };
        self.header(HEADER + 16 * i, req_type, sector);
        self.desc(i, HEADER + 16 * i, 16, NEXT, at + 1);
        self.desc(i + 1, DATA + 0x200 * i, len, data_flags, at + 2);
        self.desc(i + 2, STATUS + i, 1, WRITE, 0);
        self.guest[STATUS + i] = 0xff;
        self.offer(at);
    }

    fn status(&self, at: usize) -> u8 {
        self.guest[STATUS + at]
    }

    fn notify(&mut self) -> End {
        let result =
            self.device.handle_write(&mut self.state, BASE + mmio::QUEUE_NOTIFY, AccessWidth::Dword, 0);
        let mut step = match result {
            Ok(WriteOutcome::Notified { step }) => step,
            _ => panic!("not a notification"),
        };
        loop {
            self.turns += 1;
            step = match step {
                Step::ReadGuest { addr, len, then } => {
                    let reply = if addr + len <= self.guest.len() {
                        Ok(self.guest[addr..addr + len].to_vec())
                    } else {
                        Err(BlkError::Host { code: 5 })
                    };
                    let block_size = self.disk.block_size();
                    self.device.guest_read_done(&mut self.state, block_size, then, reply)
                }
                Step::WriteGuest { addr, data, then } => {
                    let reply = if addr + data.len() <= self.guest.len() {
                        self.put(addr, &data);
                        Ok(())
                    } else {
                        Err(BlkError::Host { code: 5 })
                    };
                    self.device.guest_write_done(&mut self.state, then, reply)
                }
                Step::ReadBackend { offset, len, then } => {
                    let mut data = vec![0u8; len];
                    let reply = self.disk.read(offset, &mut data);
                    self.device.backend_read_done(then, data, reply)
                }
                Step::WriteBackend { offset, data, then } => {
                    assert!(fits_address_space(offset, data.len()));
                    let reply = self.disk.write(offset, &data);
                    self.device.backend_write_done(&self.state, then, reply)
                }
                Step::FlushBackend { then } => {
                    self.flushes += 1;
                    let reply = self.disk.flush();
                    self.device.backend_flush_done(&self.state, then, reply)
                }
                Step::InjectIrq { irq, then } => {
                    self.irqs.push(irq);
                    self.pending.push(self.state.interrupt_status);
                    let reply = match self.irq_error {
                        Some(error) => Err(error),
                        None => Ok(()),
                    };
                    self.device.irq_done(&mut self.state, then, reply)
                }
                Step::Finish { result } => {
                    return End::Told(VirtioBlkDevice::notify_result(result));
                }
                Step::Fault { fault } => return End::Stopped(fault),
            };
        }
    }

    fn disk_bytes(&self, offset: u64, len: usize) -> Vec<u8> {
        let mut data = vec![0xeeu8; len];
        let count = self.disk.read(offset, &mut data).unwrap();
        data.truncate(count);
        data
    }
}

const REFUSED: End = End::Told(Err(BlkError::InvalidInput));
const SERVED: End = End::Told(Ok(()));

fn pattern(len: usize, seed: u8) -> Vec<u8> {
    (0..len).map(|i| (i as u8).wrapping_mul(7).wrapping_add(seed)).collect()
}

#[test]
fn write_request_reaches_the_disk() {
    let mut rig = Rig::new(8);
    let bytes = pattern(512, 3);
    rig.put(DATA, &bytes);
    rig.request(0, blk::VIRTIO_BLK_T_OUT, 2, 512);
    assert_eq!(rig.notify(), SERVED);
    assert_eq!(rig.disk_bytes(1024, 512), bytes);
    assert_eq!(rig.disk_bytes(0, 1024), vec![0u8; 1024]);
    assert_eq!(rig.status(0), blk_status::VIRTIO_BLK_S_OK);
}

#[test]
fn read_request_gets_the_sector() {
    let mut rig = Rig::new(8);
    let bytes = pattern(512, 9);
    rig.disk.write(3 * 512, &bytes).unwrap();
    rig.request(0, blk::VIRTIO_BLK_T_IN, 3, 512);
    assert_eq!(rig.notify(), SERVED);
    assert_eq!(&rig.guest[DATA..DATA + 512], bytes.as_slice());
    assert_eq!(rig.status(0), blk_status::VIRTIO_BLK_S_OK);
}

#[test]
fn written_data_is_read_back() {
    let mut rig = Rig::new(8);
    let bytes = pattern(1024, 5);
    rig.put(DATA, &bytes);
    rig.request(0, blk::VIRTIO_BLK_T_OUT, 6, 1024);
    assert_eq!(rig.notify(), SERVED);
    rig.request(3, blk::VIRTIO_BLK_T_IN, 6, 1024);
    assert_eq!(rig.notify(), SERVED);
    assert_eq!(&rig.guest[DATA + 0x600..DATA + 0x600 + 1024], bytes.as_slice());
}

#[test]
fn read_past_the_end_gives_zeros() {
    let mut rig = Rig::new(8);
    rig.disk.write(15 * 512, &pattern(512, 1)).unwrap();
    rig.put(DATA, &[0xaau8; 1024]);
    rig.request(0, blk::VIRTIO_BLK_T_IN, 15, 1024);
    assert_eq!(rig.notify(), SERVED);
    assert_eq!(&rig.guest[DATA..DATA + 512], pattern(512, 1).as_slice());
    assert_eq!(&rig.guest[DATA + 512..DATA + 1024], &[0u8; 512]);
    assert_eq!(rig.status(0), blk_status::VIRTIO_BLK_S_OK);
}

#[test]
fn read_beyond_the_disk_gives_zeros() {
    let mut rig = Rig::new(8);
    rig.put(DATA, &[0xaau8; 512]);
    rig.request(0, blk::VIRTIO_BLK_T_IN, 100, 512);
    assert_eq!(rig.notify(), SERVED);
    assert_eq!(&rig.guest[DATA..DATA + 512], &[0u8; 512]);
    assert_eq!(rig.status(0), blk_status::VIRTIO_BLK_S_OK);
}

#[test]
fn write_beyond_the_disk_grows_it() {
    let mut rig = Rig::new(8);
    rig.put(DATA, &pattern(512, 2));
    rig.request(0, blk::VIRTIO_BLK_T_OUT, 20, 512);
    assert_eq!(rig.notify(), SERVED);
    assert_eq!(rig.disk.size(), 21 * 512);
    assert_eq!(rig.load(mmio::CONFIG), Ok(21));
}

#[test]
fn flush_request_flushes() {
    let mut rig = Rig::new(8);
    rig.request(0, blk::VIRTIO_BLK_T_FLUSH, 0, 0);
    assert_eq!(rig.notify(), SERVED);
    assert_eq!(rig.flushes, 1);
    assert_eq!(rig.status(0), blk_status::VIRTIO_BLK_S_OK);
}

#[test]
fn serial_number_can_be_read() {
    let mut rig = Rig::new(8);
    rig.put(DATA, &[0xaau8; 20]);
    rig.request(0, blk::VIRTIO_BLK_T_GET_ID, 0, 20);
    assert_eq!(rig.notify(), SERVED);
    assert_eq!(&rig.guest[DATA..DATA + 5], b"vblk0");
    assert_eq!(&rig.guest[DATA + 5..DATA + 20], &[0xaau8; 15]);
    assert_eq!(rig.status(0), blk_status::VIRTIO_BLK_S_OK);
    assert_eq!(rig.irqs, vec![IRQ]);
}

#[test]
fn serial_number_is_cut_to_the_buffer() {
    let mut rig = Rig::with(8, false, "blktest-\u{e9}-disk0");
    rig.put(DATA, &[0xaau8; 20]);
    rig.request(0, blk::VIRTIO_BLK_T_GET_ID, 0, 10);
    assert_eq!(rig.notify(), SERVED);
    assert_eq!(&rig.guest[DATA..DATA + 11], b"blktest-\xc3\xa9\xaa");
    assert_eq!(rig.status(0), blk_status::VIRTIO_BLK_S_OK);
}

#[test]
fn serial_number_without_buffer_is_unsupported() {
    let mut rig = Rig::new(8);
    rig.header(HEADER, blk::VIRTIO_BLK_T_GET_ID, 0);
    rig.desc(0, HEADER, 16, NEXT, 1);
    rig.desc(1, STATUS, 1, 0, 0);
    rig.guest[STATUS] = 0xff;
    rig.offer(0);
    assert_eq!(rig.notify(), SERVED);
    assert_eq!(rig.status(0), blk_status::VIRTIO_BLK_S_UNSUPP);
}

#[test]
fn readonly_disk_refuses_writes() {
    let mut rig = Rig::with(8, true, "vblk0");
    rig.disk.write(0, &pattern(16 * 512, 6)).unwrap();
    rig.put(DATA, &pattern(512, 3));
    rig.request(0, blk::VIRTIO_BLK_T_OUT, 2, 512);
    assert_eq!(rig.notify(), SERVED);
    assert_eq!(rig.status(0), blk_status::VIRTIO_BLK_S_IOERR);
    assert_eq!(rig.disk_bytes(0, 17 * 512), pattern(16 * 512, 6));
    assert_eq!(rig.irqs, vec![IRQ]);
}

#[test]
fn readonly_disk_can_be_read() {
    let mut rig = Rig::with(8, true, "vblk0");
    rig.disk.write(3 * 512, &pattern(512, 9)).unwrap();
    rig.request(0, blk::VIRTIO_BLK_T_IN, 3, 512);
    assert_eq!(rig.notify(), SERVED);
    assert_eq!(&rig.guest[DATA..DATA + 512], pattern(512, 9).as_slice());
    assert_eq!(rig.status(0), blk_status::VIRTIO_BLK_S_OK);
}

#[test]
fn data_is_read_back_through_longer_chains() {
    let mut rig = Rig::new(16);
    let bytes = pattern(512, 7);
    rig.put(DATA, &bytes);
    // Header, a second descriptor of the header, data, spare data, status.
    rig.header(HEADER, blk::VIRTIO_BLK_T_OUT, 30);
    rig.desc(0, HEADER, 16, NEXT, 1);
    rig.desc(1, HEADER, 16, NEXT, 2);
    rig.desc(2, DATA, 512, NEXT, 3);
    rig.desc(3, DATA + 0x200, 512, NEXT, 4);
    rig.desc(4, STATUS, 1, WRITE, 0);
    rig.offer(0);
    assert_eq!(rig.notify(), SERVED);
    // Header, a buffer that is only read, data, spare data, status.
    rig.header(HEADER + 16, blk::VIRTIO_BLK_T_IN, 30);
    rig.desc(5, HEADER + 16, 16, NEXT, 6);
    rig.desc(6, HEADER + 32, 16, NEXT, 7);
    rig.desc(7, DATA + 0x400, 512, NEXT | WRITE, 8);
    rig.desc(8, DATA + 0x600, 512, NEXT | WRITE, 9);
    rig.desc(9, STATUS + 1, 1, WRITE, 0);
    rig.offer(5);
    assert_eq!(rig.notify(), SERVED);
    assert_eq!(&rig.guest[DATA + 0x400..DATA + 0x600], bytes.as_slice());
    assert_eq!(&rig.guest[DATA + 0x600..DATA + 0x800], &[0u8; 512]);
}

#[test]
fn unknown_request_is_unsupported() {
    let mut rig = Rig::new(8);
    rig.request(0, 77, 0, 512);
    assert_eq!(rig.notify(), SERVED);
    assert_eq!(rig.status(0), blk_status::VIRTIO_BLK_S_UNSUPP);
    assert_eq!(rig.disk.size(), 16 * 512);
}

#[test]
fn read_without_buffer_is_an_io_error() {
    let mut rig = Rig::new(8);
    rig.header(HEADER, blk::VIRTIO_BLK_T_IN, 0);
    rig.desc(0, HEADER, 16, NEXT, 1);
    rig.desc(1, STATUS, 1, 0, 0);
    rig.guest[STATUS] = 0xff;
    rig.offer(0);
    assert_eq!(rig.notify(), SERVED);
    assert_eq!(rig.status(0), blk_status::VIRTIO_BLK_S_IOERR);
}

#[test]
fn write_without_buffer_is_an_io_error() {
    let mut rig = Rig::new(8);
    rig.header(HEADER, blk::VIRTIO_BLK_T_OUT, 0);
    rig.desc(0, HEADER, 16, NEXT, 1);
    rig.desc(1, STATUS, 1, WRITE, 0);
    rig.guest[STATUS] = 0xff;
    rig.offer(0);
    assert_eq!(rig.notify(), SERVED);
    assert_eq!(rig.status(0), blk_status::VIRTIO_BLK_S_IOERR);
    assert_eq!(rig.disk.size(), 16 * 512);
}

#[test]
fn chain_that_leaves_the_table_gets_no_status() {
    let mut rig = Rig::new(8);
    rig.header(HEADER, blk::VIRTIO_BLK_T_FLUSH, 0);
    rig.desc(0, HEADER, 16, NEXT, 99);
    rig.offer(0);
    let before = rig.guest[STATUS..STATUS + 16].to_vec();
    assert_eq!(rig.notify(), SERVED);
    assert_eq!(rig.flushes, 1);
    assert_eq!(&rig.guest[STATUS..STATUS + 16], before.as_slice());
    assert_eq!(rig.u16_in_guest(USED + 2), 1);
}

#[test]
fn used_ring_reports_the_request() {
    let mut rig = Rig::new(8);
    rig.put(USED + 2, &5u16.to_le_bytes());
    rig.request(3, blk::VIRTIO_BLK_T_FLUSH, 0, 0);
    assert_eq!(rig.notify(), SERVED);
    assert_eq!(rig.u16_in_guest(USED + 2), 6);
    assert_eq!(&rig.guest[USED + 4 + 8 * 5..USED + 4 + 8 * 6], &[3, 0, 0, 0, 0, 2, 0, 0]);
    assert_eq!(rig.irqs, vec![IRQ]);
    assert_eq!(rig.pending, vec![1]);
    assert_eq!(rig.load(mmio::INTERRUPT_STATUS), Ok(1));
    rig.store(mmio::INTERRUPT_ACK, 1);
    assert_eq!(rig.load(mmio::INTERRUPT_STATUS), Ok(0));
}

#[test]
fn used_index_wraps_around() {
    let mut rig = Rig::new(8);
    rig.put(USED + 2, &0xffffu16.to_le_bytes());
    rig.request(0, blk::VIRTIO_BLK_T_FLUSH, 0, 0);
    assert_eq!(rig.notify(), SERVED);
    assert_eq!(rig.u16_in_guest(USED + 2), 0);
    assert_eq!(&rig.guest[USED + 4 + 8 * 7..USED + 4 + 8 * 7 + 4], &[0, 0, 0, 0]);
    assert_eq!(&rig.guest[USED + 4 + 8 * 7 + 4..USED + 4 + 8 * 8], &[0, 2, 0, 0]);
}

#[test]
fn all_new_requests_are_served_in_order() {
    let mut rig = Rig::new(16);
    rig.put(DATA, &pattern(512, 1));
    rig.put(DATA + 0x600, &pattern(512, 2));
    rig.request(0, blk::VIRTIO_BLK_T_OUT, 4, 512);
    rig.request(3, blk::VIRTIO_BLK_T_OUT, 4, 512);
    rig.request(6, blk::VIRTIO_BLK_T_IN, 4, 512);
    assert_eq!(rig.notify(), SERVED);
    assert_eq!(rig.disk_bytes(4 * 512, 512), pattern(512, 2));
    assert_eq!(&rig.guest[DATA + 0xc00..DATA + 0xe00], pattern(512, 2).as_slice());
    assert_eq!(rig.irqs, vec![IRQ, IRQ, IRQ]);
    assert_eq!(rig.state.last_avail_idx, 3);
    assert_eq!(rig.u16_in_guest(USED + 2), 3);
}

#[test]
fn second_notification_finds_nothing_new() {
    let mut rig = Rig::new(8);
    rig.request(0, blk::VIRTIO_BLK_T_FLUSH, 0, 0);
    assert_eq!(rig.notify(), SERVED);
    let guest = rig.guest.clone();
    assert_eq!(rig.notify(), SERVED);
    assert_eq!(rig.guest, guest);
    assert_eq!(rig.irqs.len(), 1);
}

#[test]
fn ring_indices_wrap_around() {
    let mut rig = Rig::new(4);
    rig.state.last_avail_idx = 0xfffe;
    rig.avail_idx = 0xfffe;
    for _ in 0..4 {
        rig.request(0, blk::VIRTIO_BLK_T_FLUSH, 0, 0);
    }
    assert_eq!(rig.notify(), SERVED);
    assert_eq!(rig.flushes, 4);
    assert_eq!(rig.state.last_avail_idx, 2);
}

#[test]
fn queue_that_is_not_ready_is_left_alone() {
    let mut rig = Rig::new(8);
    rig.request(0, blk::VIRTIO_BLK_T_FLUSH, 0, 0);
    rig.store(mmio::QUEUE_READY, 0);
    assert_eq!(rig.notify(), SERVED);
    assert_eq!(rig.flushes, 0);
    rig.store(mmio::QUEUE_READY, 1);
    assert_eq!(rig.notify(), SERVED);
    assert_eq!(rig.flushes, 1);
}

#[test]
fn bad_descriptor_index_is_refused() {
    let mut rig = Rig::new(8);
    rig.offer(8);
    assert_eq!(rig.notify(), REFUSED);
    assert_eq!(rig.state.last_avail_idx, 0);
    assert!(rig.irqs.is_empty());
}

#[test]
fn short_header_is_refused() {
    let mut rig = Rig::new(8);
    rig.request(0, blk::VIRTIO_BLK_T_FLUSH, 0, 0);
    rig.desc(0, HEADER, 15, NEXT, 1);
    assert_eq!(rig.notify(), REFUSED);
    assert_eq!(rig.status(0), 0xff);
}

#[test]
fn error_of_the_guest_ends_the_notification() {
    let mut rig = Rig::new(8);
    rig.request(0, blk::VIRTIO_BLK_T_FLUSH, 0, 0);
    rig.request(3, blk::VIRTIO_BLK_T_OUT, 0, 512);
    rig.desc(4, 0x20000, 512, NEXT, 5);
    assert_eq!(rig.notify(), REFUSED);
    assert_eq!(rig.flushes, 1);
    assert_eq!(rig.irqs.len(), 1);
    assert_eq!(rig.state.last_avail_idx, 0);
}

#[test]
fn refused_interrupt_ends_the_notification() {
    let mut rig = Rig::new(8);
    rig.irq_error = Some(BlkError::Unsupported);
    rig.request(0, blk::VIRTIO_BLK_T_FLUSH, 0, 0);
    assert_eq!(rig.notify(), REFUSED);
    assert_eq!(rig.state.last_avail_idx, 0);
    assert_eq!(rig.state.interrupt_status, 1);
    assert_eq!(rig.status(0), blk_status::VIRTIO_BLK_S_OK);
}

#[test]
fn unreadable_ring_is_refused() {
    let mut rig = Rig::new(8);
    rig.store(mmio::QUEUE_AVAIL_LOW, 0xfff0_0000);
    assert_eq!(rig.notify(), REFUSED);
}

#[test]
fn endless_chain_is_a_fault() {
    let mut rig = Rig::new(8);
    rig.request(0, blk::VIRTIO_BLK_T_FLUSH, 0, 0);
    rig.desc(2, STATUS, 1, WRITE | NEXT, 1);
    assert_eq!(rig.notify(), End::Stopped(Fault::EndlessChain));
}

#[test]
fn sector_out_of_range_is_a_fault() {
    let mut rig = Rig::new(8);
    rig.request(0, blk::VIRTIO_BLK_T_IN, 1 << 55, 512);
    assert_eq!(rig.notify(), End::Stopped(Fault::SectorOutOfRange));
    let mut rig = Rig::new(8);
    rig.request(0, blk::VIRTIO_BLK_T_OUT, 1 << 55, 512);
    assert_eq!(rig.notify(), End::Stopped(Fault::SectorOutOfRange));
}

#[test]
fn queue_without_entries_is_a_fault() {
    let mut rig = Rig::new(8);
    rig.request(0, blk::VIRTIO_BLK_T_FLUSH, 0, 0);
    rig.store(mmio::QUEUE_NUM, 0);
    assert_eq!(rig.notify(), End::Stopped(Fault::EmptyQueue));
}

#[test]
fn used_ring_at_the_end_of_the_address_space_is_a_fault() {
    let rig = Rig::new(8);
    let mut state = rig.state;
    state.queue.used = usize::MAX - 3;
    let step = rig.device.guest_write_done(
        &mut state,
        axvirtio_blk::step::GuestWrite::Status {
            scan: axvirtio_blk::step::QueueScan {
                ring: vec![0u8; 20],
                queue_size: 8,
                next: 0,
                avail_idx: 1,
            },
            head_idx: 0,
        },
        Ok(()),
    );
    let (addr, then) = match step {
        Step::ReadGuest { addr, len, then } => {
            assert_eq!(len, 4);
            (addr, then)
        }
        _ => panic!("the used ring is not read"),
    };
    assert_eq!(addr, usize::MAX - 3);
    let next = rig.device.guest_read_done(&mut state, 512, then, Ok(vec![0u8; 4]));
    assert!(matches!(next, Step::Fault { fault: Fault::AddressOutOfRange }));
}

#[test]
fn short_replies_are_faults() {
    let rig = Rig::new(8);
    let mut state = rig.state;
    let then = match rig.device.process_queue(&state) {
        Step::ReadGuest { addr, len, then } => {
            assert_eq!((addr, len), (AVAIL, 20));
            then
        }
        _ => panic!("the available ring is not read"),
    };
    let next = rig.device.guest_read_done(&mut state, 512, then, Ok(vec![0u8; 3]));
    assert!(matches!(next, Step::Fault { fault: Fault::AvailRingTooShort }));
    let then = axvirtio_blk::step::GuestRead::UsedHeader {
        scan: axvirtio_blk::step::QueueScan {
            ring: vec![0u8; 20],
            queue_size: 8,
            next: 0,
            avail_idx: 1,
        },
        head_idx: 0,
        used: USED,
        queue_size: 8,
    };
    let next = rig.device.guest_read_done(&mut state, 512, then, Ok(vec![0u8; 3]));
    assert!(matches!(next, Step::Fault { fault: Fault::UsedRingTooShort }));
}

#[test]
fn whole_buffer_goes_to_the_guest() {
    let rig = Rig::new(8);
    let target = || axvirtio_blk::step::ReadTarget {
        request: axvirtio_blk::step::Request {
            scan: axvirtio_blk::step::QueueScan {
                ring: vec![0u8; 20],
                queue_size: 8,
                next: 0,
                avail_idx: 1,
            },
            head_idx: 0,
            table: vec![0u8; 128],
            head: axvirtio_blk::queue::VirtqDescriptor { addr: 0, len: 16, flags: NEXT, next: 1 },
        },
        addr: DATA,
    };
    for (count, expected) in [
        (0, [0, 0, 0, 0]),
        (2, [1, 2, 0, 0]),
        (4, [1, 2, 3, 4]),
        (5, [1, 2, 3, 4]),
    ] {
        match rig.device.backend_read_done(target(), vec![1, 2, 3, 4], Ok(count)) {
            Step::WriteGuest { addr, data, .. } => {
                assert_eq!(addr, DATA);
                assert_eq!(data, expected);
            }
            _ => panic!("nothing is written"),
        }
    }
    let failed = rig.device.backend_read_done(target(), vec![1, 2, 3, 4], Err(BlkError::Io));
    assert!(matches!(failed, Step::Finish { result: Err(BlkError::Io) }));
}

#[test]
fn ring_shorter_than_the_queue_ends_the_scan() {
    let rig = Rig::new(8);
    let mut state = rig.state;
    let then = match rig.device.process_queue(&state) {
        Step::ReadGuest { then, .. } => then,
        _ => panic!("the available ring is not read"),
    };
    // Two new requests are announced, and the ring that is delivered holds no
    // slot at all.
    let next = rig.device.guest_read_done(&mut state, 512, then, Ok(vec![0, 0, 2, 0, 7]));
    assert!(matches!(next, Step::Finish { result: Ok(()) }));
    assert_eq!(state.last_avail_idx, 2);
}

#[test]
fn requests_take_few_turns() {
    let mut rig = Rig::new(16);
    rig.request(0, blk::VIRTIO_BLK_T_OUT, 0, 512);
    rig.request(3, blk::VIRTIO_BLK_T_IN, 0, 512);
    rig.request(6, blk::VIRTIO_BLK_T_FLUSH, 0, 0);
    assert_eq!(rig.notify(), SERVED);
    // The ring, two requests of nine pieces, one of eight, and the end.
    assert_eq!(rig.turns, 1 + 9 + 9 + 8 + 1);
}

#[test]
fn serving_keeps_what_the_driver_has_set_up() {
    let mut rig = Rig::new(8);
    rig.store(mmio::STATUS, 15);
    let before = rig.state;
    rig.request(0, blk::VIRTIO_BLK_T_OUT, 0, 512);
    assert_eq!(rig.notify(), SERVED);
    let mut expected = before;
    expected.interrupt_status = 1;
    expected.last_avail_idx = 1;
    assert_eq!(rig.state, expected);
}

#[test]
fn only_write_requests_change_the_disk() {
    let mut rig = Rig::new(16);
    rig.disk.write(0, &pattern(16 * 512, 4)).unwrap();
    rig.put(DATA, &pattern(512, 8));
    rig.request(0, blk::VIRTIO_BLK_T_IN, 1, 512);
    rig.request(3, blk::VIRTIO_BLK_T_FLUSH, 2, 512);
    rig.request(6, blk::VIRTIO_BLK_T_GET_ID, 3, 512);
    assert_eq!(rig.notify(), SERVED);
    assert_eq!(rig.disk_bytes(0, 17 * 512), pattern(16 * 512, 4));
}

#[test]
fn report_touches_only_its_slot_and_the_index() {
    let mut rig = Rig::new(8);
    rig.request(0, blk::VIRTIO_BLK_T_FLUSH, 0, 0);
    let before = rig.guest.clone();
    assert_eq!(rig.notify(), SERVED);
    for (at, byte) in rig.guest.iter().enumerate() {
        let reported = (USED + 2..USED + 12).contains(&at) || at == STATUS;
        assert!(reported || *byte == before[at], "{:#x}", at);
    }
}
