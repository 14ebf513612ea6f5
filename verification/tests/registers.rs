//! The register window.

use axvirtio_blk::config::VirtioBlkMmioDeviceConfig;
use axvirtio_blk::device::{VirtioBlkDevice, WriteOutcome};
use axvirtio_blk::error::BlkError;
use axvirtio_blk::registers::{AccessWidth, VirtioBlkState};
use axvirtio_blk::step::Step;
use axvirtio_blk::virtio::{device_status, features, mmio, VIRTIO_ID_BLOCK};

const BASE: usize = 0x0a00_3e00;

fn device() -> VirtioBlkDevice {
    let config = VirtioBlkMmioDeviceConfig {
        mmio_base: String::from("0x0a003e00"),
        mmio_size: String::from("0x200"),
        interrupt_number: 48,
        backend_type: String::from("memory"),
        backend_path: String::new(),
        readonly: false,
        serial: String::from("vblk0"),
    };
    match VirtioBlkDevice::new(&config, false) {
        Ok(device) => device,
        Err(error) => panic!("{:?}", error),
    }
}

fn read(state: &VirtioBlkState, offset: usize, width: AccessWidth) -> Result<usize, BlkError> {
    device().handle_read(state, 0x4000_0000, BASE + offset, width)
}

fn write(state: &mut VirtioBlkState, offset: usize, value: usize) -> Result<(), BlkError> {
    match device().handle_write(state, BASE + offset, AccessWidth::Dword, value) {
        Ok(_) => Ok(()),
        Err(error) => Err(error),
    }
}

#[test]
fn identification_registers() {
    let state = VirtioBlkState::new();
    assert_eq!(read(&state, mmio::MAGIC_VALUE, AccessWidth::Dword), Ok(0x74726976));
    assert_eq!(read(&state, mmio::VERSION, AccessWidth::Dword), Ok(2));
    assert_eq!(read(&state, mmio::DEVICE_ID, AccessWidth::Dword), Ok(VIRTIO_ID_BLOCK as usize));
    assert_eq!(read(&state, mmio::VENDOR_ID, AccessWidth::Dword), Ok(0));
    assert_eq!(read(&state, mmio::QUEUE_NUM_MAX, AccessWidth::Dword), Ok(256));
}

#[test]
fn magic_value_by_width() {
    let state = VirtioBlkState::new();
    assert_eq!(read(&state, mmio::MAGIC_VALUE, AccessWidth::Byte), Ok(0x76));
    assert_eq!(read(&state, mmio::MAGIC_VALUE, AccessWidth::Word), Ok(0x6976));
    assert_eq!(read(&state, mmio::MAGIC_VALUE, AccessWidth::Qword), Ok(0x74726976));
}

#[test]
fn feature_halves() {
    let mut state = VirtioBlkState::new();
    let low = features::VIRTIO_BLK_F_SIZE_MAX
        | features::VIRTIO_BLK_F_SEG_MAX
        | features::VIRTIO_BLK_F_GEOMETRY
        | features::VIRTIO_BLK_F_BLK_SIZE
        | features::VIRTIO_BLK_F_FLUSH;
    assert_eq!(read(&state, mmio::DEVICE_FEATURES, AccessWidth::Dword), Ok(low as usize));
    assert_eq!(low, 0x256);
    assert_eq!(write(&mut state, mmio::DEVICE_FEATURES_SEL, 1), Ok(()));
    assert_eq!(read(&state, mmio::DEVICE_FEATURES, AccessWidth::Dword), Ok(1));
    assert_eq!(write(&mut state, mmio::DEVICE_FEATURES_SEL, 7), Ok(()));
    assert_eq!(read(&state, mmio::DEVICE_FEATURES, AccessWidth::Dword), Ok(1));
    assert_eq!(features::VIRTIO_F_VERSION_1, 1 << 32);
}

#[test]
fn initialisation_sequence() {
    let mut state = VirtioBlkState::new();
    let mut status = device_status::ACKNOWLEDGE;
    for bit in [
        device_status::DRIVER,
        device_status::FEATURES_OK,
        device_status::DRIVER_OK,
    ] {
        assert_eq!(write(&mut state, mmio::STATUS, status as usize), Ok(()));
        assert_eq!(read(&state, mmio::STATUS, AccessWidth::Dword), Ok(status as usize));
        status |= bit;
    }
    assert_eq!(write(&mut state, mmio::DRIVER_FEATURES_SEL, 1), Ok(()));
    assert_eq!(write(&mut state, mmio::DRIVER_FEATURES, 1), Ok(()));
    assert_eq!(write(&mut state, mmio::QUEUE_SEL, 0), Ok(()));
    assert_eq!(write(&mut state, mmio::QUEUE_NUM, 256), Ok(()));
    assert_eq!(write(&mut state, mmio::QUEUE_DESC_LOW, 0x1000), Ok(()));
    assert_eq!(write(&mut state, mmio::QUEUE_DESC_HIGH, 0x1), Ok(()));
    assert_eq!(write(&mut state, mmio::QUEUE_AVAIL_LOW, 0x2000), Ok(()));
    assert_eq!(write(&mut state, mmio::QUEUE_AVAIL_HIGH, 0x2), Ok(()));
    assert_eq!(write(&mut state, mmio::QUEUE_USED_LOW, 0xffff_f000), Ok(()));
    assert_eq!(write(&mut state, mmio::QUEUE_USED_HIGH, 0x3), Ok(()));
    assert_eq!(read(&state, mmio::QUEUE_READY, AccessWidth::Dword), Ok(0));
    assert_eq!(write(&mut state, mmio::QUEUE_READY, 1), Ok(()));
    assert_eq!(read(&state, mmio::QUEUE_READY, AccessWidth::Dword), Ok(1));
    assert_eq!(state.driver_features_sel, 1);
    assert_eq!(state.queue_num, 256);
    assert_eq!(state.queue.size, 256);
    assert_eq!(state.queue.desc, 0x1_0000_1000);
    assert_eq!(state.queue.avail, 0x2_0000_2000);
    assert_eq!(state.queue.used, 0x3_ffff_f000);
    assert_eq!(state.last_avail_idx, 0);
}

#[test]
fn high_half_is_added_and_low_half_replaces() {
    let mut state = VirtioBlkState::new();
    assert_eq!(write(&mut state, mmio::QUEUE_DESC_HIGH, 0x5), Ok(()));
    assert_eq!(write(&mut state, mmio::QUEUE_DESC_HIGH, 0x2), Ok(()));
    assert_eq!(state.queue.desc, 0x7_0000_0000);
    assert_eq!(write(&mut state, mmio::QUEUE_DESC_LOW, 0x1000), Ok(()));
    assert_eq!(state.queue.desc, 0x1000);
}

#[test]
fn values_are_cut_to_the_register() {
    let mut state = VirtioBlkState::new();
    assert_eq!(write(&mut state, mmio::STATUS, 0x1_0000_0004), Ok(()));
    assert_eq!(state.device_status, 4);
    assert_eq!(write(&mut state, mmio::QUEUE_SEL, 0x1_0002), Ok(()));
    assert_eq!(state.queue_sel, 2);
    assert_eq!(write(&mut state, mmio::QUEUE_NUM, 0x1_0080), Ok(()));
    assert_eq!(state.queue.size, 0x80);
}

#[test]
fn acknowledged_interrupts_are_cleared() {
    let mut state = VirtioBlkState::new();
    state.interrupt_status = 0b1011;
    assert_eq!(write(&mut state, mmio::INTERRUPT_ACK, 0b0011), Ok(()));
    assert_eq!(read(&state, mmio::INTERRUPT_STATUS, AccessWidth::Dword), Ok(0b1000));
}

#[test]
fn write_only_registers_cannot_be_read() {
    let state = VirtioBlkState::new();
    for offset in [
        mmio::DEVICE_FEATURES_SEL,
        mmio::DRIVER_FEATURES,
        mmio::DRIVER_FEATURES_SEL,
        mmio::QUEUE_SEL,
        mmio::QUEUE_NUM,
        mmio::QUEUE_NOTIFY,
        mmio::INTERRUPT_ACK,
        mmio::QUEUE_DESC_LOW,
        mmio::QUEUE_USED_HIGH,
        0x02,
        0xfc,
    ] {
        assert_eq!(read(&state, offset, AccessWidth::Dword), Err(BlkError::InvalidInput));
    }
}

#[test]
fn read_only_registers_cannot_be_written() {
    let before = VirtioBlkState::new();
    for offset in [
        mmio::MAGIC_VALUE,
        mmio::VERSION,
        mmio::DEVICE_ID,
        mmio::VENDOR_ID,
        mmio::DEVICE_FEATURES,
        mmio::QUEUE_NUM_MAX,
        mmio::INTERRUPT_STATUS,
        0x0fc,
    ] {
        let mut state = before;
        assert_eq!(write(&mut state, offset, 1), Err(BlkError::InvalidInput));
        assert_eq!(state, before);
    }
}

#[test]
fn configuration_space_accepts_writes() {
    let mut before = VirtioBlkState::new();
    before.interrupt_status = 1;
    before.queue.ready = true;
    for offset in [mmio::CONFIG, mmio::CONFIG + 8, 0x1fc] {
        let mut state = before;
        assert_eq!(write(&mut state, offset, 0xffff_ffff), Ok(()));
        assert_eq!(state, before);
        assert_eq!(read(&state, mmio::CONFIG, AccessWidth::Qword), Ok(0x20_0000));
    }
}

#[test]
fn capacity_in_the_configuration_space() {
    let state = VirtioBlkState::new();
    assert_eq!(read(&state, mmio::CONFIG, AccessWidth::Qword), Ok(0x20_0000));
    assert_eq!(read(&state, mmio::CONFIG, AccessWidth::Dword), Ok(0x20_0000));
    assert_eq!(read(&state, mmio::CONFIG + 4, AccessWidth::Dword), Ok(0));
    assert_eq!(read(&state, mmio::CONFIG + 2, AccessWidth::Byte), Ok(0x20));
    assert_eq!(read(&state, mmio::CONFIG + 2, AccessWidth::Word), Ok(0x20));
    assert_eq!(read(&state, mmio::CONFIG + 1, AccessWidth::Word), Ok(0x2000));
}

#[test]
fn large_capacity_in_two_halves() {
    let state = VirtioBlkState::new();
    let dev = device();
    let size: u64 = 512 * 0x1_2345_6789;
    let at = BASE + mmio::CONFIG;
    assert_eq!(dev.handle_read(&state, size, at, AccessWidth::Dword), Ok(0x2345_6789));
    assert_eq!(dev.handle_read(&state, size, at + 4, AccessWidth::Dword), Ok(1));
    assert_eq!(dev.handle_read(&state, size + 511, at, AccessWidth::Qword), Ok(0x1_2345_6789));
}

#[test]
fn rest_of_the_configuration_space_is_zero() {
    let state = VirtioBlkState::new();
    for at in 8..32 {
        assert_eq!(read(&state, mmio::CONFIG + at, AccessWidth::Byte), Ok(0));
    }
    for (at, width) in [
        (32, AccessWidth::Byte),
        (31, AccessWidth::Word),
        (29, AccessWidth::Dword),
        (25, AccessWidth::Qword),
        (1000, AccessWidth::Qword),
    ] {
        assert_eq!(read(&state, mmio::CONFIG + at, width), Ok(0));
    }
}

#[test]
fn notification_starts_with_the_available_ring() {
    let dev = device();
    let mut state = VirtioBlkState::new();
    state.queue.ready = true;
    state.queue.size = 4;
    state.queue.avail = 0x2000;
    let before = state;
    let outcome =
        dev.handle_write(&mut state, BASE + mmio::QUEUE_NOTIFY, AccessWidth::Dword, 0);
    match outcome {
        Ok(WriteOutcome::Notified { step: Step::ReadGuest { addr, len, .. } }) => {
            assert_eq!((addr, len), (0x2000, 12));
        }
        _ => panic!("not a notification"),
    }
    assert_eq!(state, before);
}

#[test]
fn notification_results() {
    assert_eq!(VirtioBlkDevice::notify_result(Ok(())), Ok(()));
    assert_eq!(
        VirtioBlkDevice::notify_result(Err(BlkError::Io)),
        Err(BlkError::InvalidInput)
    );
    assert_eq!(
        VirtioBlkDevice::notify_result(Err(BlkError::Host { code: 3 })),
        Err(BlkError::InvalidInput)
    );
}

#[test]
fn writes_show_only_where_they_belong() {
    let readable = [
        mmio::MAGIC_VALUE,
        mmio::VERSION,
        mmio::DEVICE_ID,
        mmio::VENDOR_ID,
        mmio::DEVICE_FEATURES,
        mmio::QUEUE_NUM_MAX,
        mmio::QUEUE_READY,
        mmio::INTERRUPT_STATUS,
        mmio::STATUS,
    ];
    let writable = [
        (mmio::DEVICE_FEATURES_SEL, mmio::DEVICE_FEATURES),
        (mmio::DRIVER_FEATURES, usize::MAX),
        (mmio::DRIVER_FEATURES_SEL, usize::MAX),
        (mmio::QUEUE_SEL, usize::MAX),
        (mmio::QUEUE_NUM, usize::MAX),
        (mmio::QUEUE_READY, mmio::QUEUE_READY),
        (mmio::QUEUE_DESC_LOW, usize::MAX),
        (mmio::QUEUE_DESC_HIGH, usize::MAX),
        (mmio::QUEUE_AVAIL_LOW, usize::MAX),
        (mmio::QUEUE_AVAIL_HIGH, usize::MAX),
        (mmio::QUEUE_USED_LOW, usize::MAX),
        (mmio::QUEUE_USED_HIGH, usize::MAX),
        (mmio::INTERRUPT_ACK, mmio::INTERRUPT_STATUS),
        (mmio::STATUS, mmio::STATUS),
    ];
    let mut before = VirtioBlkState::new();
    before.interrupt_status = 3;
    before.last_avail_idx = 9;
    for (at, shown) in writable {
        let mut after = before;
        assert_eq!(write(&mut after, at, 1), Ok(()));
        assert_eq!(after.last_avail_idx, 9);
        for offset in readable {
            let was = read(&before, offset, AccessWidth::Dword);
            let is = read(&after, offset, AccessWidth::Dword);
            assert_eq!(is != was, offset == shown, "{:#x} at {:#x}", at, offset);
        }
    }
}

#[test]
fn new_device_ignores_notifications() {
    let state = VirtioBlkState::new();
    assert!(matches!(device().process_queue(&state), Step::Finish { result: Ok(()) }));
}
