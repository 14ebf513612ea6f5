//! Devices from their configuration.

use axvirtio_blk::config::{parse_number, VirtioBlkMmioDeviceConfig};
use axvirtio_blk::device::BackendChoice;
use axvirtio_blk::error::BlkError;
use axvirtio_blk::VirtioBlkDevice;

fn config(base: &str, size: &str, path: &str) -> VirtioBlkMmioDeviceConfig {
    VirtioBlkMmioDeviceConfig {
        mmio_base: String::from(base),
        mmio_size: String::from(size),
        interrupt_number: 48,
        backend_type: String::from("file"),
        backend_path: String::from(path),
        readonly: false,
        serial: String::from("vblk0"),
    }
}

fn error_of(result: Result<VirtioBlkDevice, BlkError>) -> BlkError {
    match result {
        Ok(_) => panic!("a device"),
        Err(error) => error,
    }
}

#[test]
fn numbers_of_the_configuration() {
    assert_eq!(parse_number("0x0a000000"), Some(0x0a00_0000));
    assert_eq!(parse_number("200"), Some(0x200));
    assert_eq!(parse_number("0xAbC"), Some(0xabc));
    assert_eq!(parse_number("0x0x10"), Some(0x10));
    assert_eq!(parse_number("+ff"), Some(0xff));
    assert_eq!(parse_number("0x+ff"), Some(0xff));
    assert_eq!(parse_number("00"), Some(0));
    assert_eq!(parse_number("0xffffffffffffffff"), Some(usize::MAX));
    assert_eq!(parse_number("0x00000000000000000001"), Some(1));
}

#[test]
fn strings_that_are_no_numbers() {
    for s in [
        "", "0x", "+", "0x+", "-1", "0X10", "10 ", " 10", "1_0", "0xg", "1g", "+0x10", "++1",
        "0x10000000000000000", "\u{ff11}",
    ] {
        assert_eq!(parse_number(s), None, "{:?}", s);
    }
}

#[test]
fn device_with_a_disk_in_memory() {
    let device = match VirtioBlkDevice::new(&config("0x0a000000", "0x200", ""), false) {
        Ok(device) => device,
        Err(error) => panic!("{:?}", error),
    };
    assert_eq!(device.base_gpa, 0x0a00_0000);
    assert_eq!(device.size, 0x200);
    assert_eq!(device.irq_id, 48);
    assert!(!device.readonly);
    assert_eq!(device.serial, "vblk0");
    assert!(matches!(device.backend, BackendChoice::Memory { size: 1073741824 }));
    assert_eq!(device.address_range(), (0x0a00_0000, 0x0a00_0200));
}

#[test]
fn device_with_a_disk_file() {
    let device = match VirtioBlkDevice::new(&config("a000000", "200", "/guest-disk.img"), true) {
        Ok(device) => device,
        Err(error) => panic!("{:?}", error),
    };
    match device.backend {
        BackendChoice::File { path } => assert_eq!(path, "/guest-disk.img"),
        _ => panic!("no file"),
    }
}

#[test]
fn disk_file_needs_a_file_system() {
    let result = VirtioBlkDevice::new(&config("0x0a000000", "0x200", "/guest-disk.img"), false);
    assert_eq!(error_of(result), BlkError::Unsupported);
}

#[test]
fn bad_addresses_and_sizes_are_refused() {
    let result = VirtioBlkDevice::new(&config("base", "0x200", ""), false);
    assert_eq!(error_of(result), BlkError::InvalidInput);
    let result = VirtioBlkDevice::new(&config("0x0a000000", "", ""), false);
    assert_eq!(error_of(result), BlkError::InvalidInput);
    let result = VirtioBlkDevice::new(&config("", "", "/guest-disk.img"), false);
    assert_eq!(error_of(result), BlkError::InvalidInput);
}

#[test]
fn memory_is_chosen_by_type_or_path() {
    for fs_support in [false, true] {
        for (kind, path) in [
            ("memory", ""),
            ("memory", "memory"),
            ("memory", "/guest-disk.img"),
            ("file", ""),
            ("file", "memory"),
            ("", "memory"),
            ("", ""),
        ] {
            let mut config = config("0x0a000000", "0x200", path);
            config.backend_type = String::from(kind);
            assert!(config.is_memory());
            let device = match VirtioBlkDevice::new(&config, fs_support) {
                Ok(device) => device,
                Err(error) => panic!("{:?}", error),
            };
            assert!(matches!(device.backend, BackendChoice::Memory { size: 1073741824 }));
        }
    }
    assert!(!config("0x0a000000", "0x200", "memory.img").is_memory());
}

#[test]
fn readonly_and_serial_are_taken_over() {
    let mut config = config("0x0a000000", "0x200", "");
    config.readonly = true;
    config.serial = String::from("blktest-disk0");
    let device = match VirtioBlkDevice::new(&config, false) {
        Ok(device) => device,
        Err(error) => panic!("{:?}", error),
    };
    assert!(device.readonly);
    assert_eq!(device.serial, "blktest-disk0");
}
