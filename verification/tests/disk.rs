//! The disk in memory.

use axvirtio_blk::backend::{fits_address_space, BlockBackend, MemoryBackend, SECTOR_SIZE};
use axvirtio_blk::error::BlkError;

#[test]
fn new_disk_is_zero() {
    let disk = MemoryBackend::new(100);
    assert_eq!(disk.size(), 100);
    assert_eq!(disk.block_size(), 512);
    let mut data = [1u8; 100];
    assert_eq!(disk.read(0, &mut data), Ok(100));
    assert_eq!(data, [0u8; 100]);
}

#[test]
fn disk_reads_back_what_was_written() {
    let mut disk = MemoryBackend::new(64);
    assert_eq!(disk.write(10, &[1, 2, 3]), Ok(3));
    let mut data = [9u8; 5];
    assert_eq!(disk.read(9, &mut data), Ok(5));
    assert_eq!(data, [0, 1, 2, 3, 0]);
    assert_eq!(disk.size(), 64);
}

#[test]
fn short_read_leaves_the_rest_of_the_buffer() {
    let mut disk = MemoryBackend::new(4);
    assert_eq!(disk.write(0, &[1, 2, 3, 4]), Ok(4));
    let mut data = [9u8; 6];
    assert_eq!(disk.read(2, &mut data), Ok(2));
    assert_eq!(data, [3, 4, 9, 9, 9, 9]);
    assert_eq!(disk.read(4, &mut data), Ok(0));
    assert_eq!(disk.read(u64::MAX, &mut data), Ok(0));
    assert_eq!(data, [3, 4, 9, 9, 9, 9]);
}

#[test]
fn disk_grows_with_zeros() {
    let mut disk = MemoryBackend::new(2);
    assert_eq!(disk.write(0, &[5, 6]), Ok(2));
    assert_eq!(disk.write(4, &[7]), Ok(1));
    assert_eq!(disk.size(), 5);
    let mut data = [9u8; 5];
    assert_eq!(disk.read(0, &mut data), Ok(5));
    assert_eq!(data, [5, 6, 0, 0, 7]);
    assert_eq!(disk.write(1, &[8, 8, 8, 8, 8]), Ok(5));
    assert_eq!(disk.size(), 6);
}

#[test]
fn empty_write_grows_too() {
    let mut disk = MemoryBackend::new(2);
    assert_eq!(disk.write(8, &[]), Ok(0));
    assert_eq!(disk.size(), 8);
    assert_eq!(disk.write(1, &[]), Ok(0));
    assert_eq!(disk.size(), 8);
}

#[test]
fn later_write_counts() {
    let mut disk = MemoryBackend::new(8);
    assert_eq!(disk.write(3, &[1, 1, 1]), Ok(3));
    assert_eq!(disk.write(3, &[2, 2, 2]), Ok(3));
    let mut data = [0u8; 8];
    assert_eq!(disk.read(0, &mut data), Ok(8));
    assert_eq!(data, [0, 0, 0, 2, 2, 2, 0, 0]);
}

#[test]
fn flush_keeps_the_disk() {
    let mut disk = MemoryBackend::new(3);
    assert_eq!(disk.write(0, &[1, 2, 3]), Ok(3));
    assert_eq!(disk.flush(), Ok(()));
    let mut data = [0u8; 3];
    assert_eq!(disk.read(0, &mut data), Ok(3));
    assert_eq!(data, [1, 2, 3]);
}

#[test]
fn address_space_is_bounded() {
    assert!(fits_address_space(0, 0));
    assert!(fits_address_space(isize::MAX as u64, 0));
    assert!(!fits_address_space(isize::MAX as u64, 1));
    assert!(!fits_address_space(u64::MAX, 2));
}

struct NullDisk;

impl BlockBackend for NullDisk {
    fn read(&self, _offset: u64, _data: &mut [u8]) -> Result<usize, BlkError> {
        Ok(0)
    }

    fn write(&mut self, _offset: u64, _data: &[u8]) -> Result<usize, BlkError> {
        Err(BlkError::Io)
    }

    fn size(&self) -> u64 {
        0
    }

    fn flush(&mut self) -> Result<(), BlkError> {
        Ok(())
    }
}

#[test]
fn sector_size_is_512_by_default() {
    let mut disk = NullDisk;
    assert_eq!(disk.block_size(), SECTOR_SIZE);
    assert_eq!(SECTOR_SIZE, 512);
    let mut data = [1u8];
    assert_eq!(disk.read(0, &mut data), Ok(0));
    assert_eq!(disk.write(0, &data), Err(BlkError::Io));
    assert_eq!(disk.flush(), Ok(()));
    assert_eq!(disk.size(), 0);
}
