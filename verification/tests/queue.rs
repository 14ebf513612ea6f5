//! Descriptors and chains.

use axvirtio_blk::bytes::{push_u16, push_u32, push_u64, read_u16, read_u32, read_u64};
use axvirtio_blk::queue::{
    find_descriptor, read_descriptor, VirtQueue, VirtqDescriptor, Walk, Wanted,
};
use axvirtio_blk::virtio::desc_flags;

const NEXT: u16 = desc_flags::VIRTQ_DESC_F_NEXT;
const WRITE: u16 = desc_flags::VIRTQ_DESC_F_WRITE;

fn desc(addr: u64, flags: u16, next: u16) -> VirtqDescriptor {
    VirtqDescriptor { addr, len: 512, flags, next }
}

fn table(descs: &[VirtqDescriptor]) -> Vec<u8> {
    let mut bytes = Vec::new();
    for d in descs {
        push_u64(&mut bytes, d.addr);
        push_u32(&mut bytes, d.len);
        push_u16(&mut bytes, d.flags);
        push_u16(&mut bytes, d.next);
    }
    bytes
}

#[test]
fn integers_are_little_endian() {
    let bytes = [0x01, 0x02, 0x03, 0x04, 0x05, 0x06, 0x07, 0x08, 0x09];
    assert_eq!(read_u16(&bytes, 0), 0x0201);
    assert_eq!(read_u32(&bytes, 1), 0x0504_0302);
    assert_eq!(read_u64(&bytes, 1), 0x0908_0706_0504_0302);
    let mut out = Vec::new();
    push_u16(&mut out, 0xa1b2);
    push_u32(&mut out, 0x0102_0304);
    push_u64(&mut out, 0x1122_3344_5566_7788);
    assert_eq!(
        out,
        vec![0xb2, 0xa1, 4, 3, 2, 1, 0x88, 0x77, 0x66, 0x55, 0x44, 0x33, 0x22, 0x11]
    );
}

#[test]
fn new_queue_is_not_ready() {
    let queue = VirtQueue::new();
    assert_eq!(queue, VirtQueue { size: 0, desc: 0, avail: 0, used: 0, ready: false });
}

#[test]
fn descriptors_of_a_table() {
    let descs = [desc(0x1122_3344_5566_7788, 3, 0x99aa), desc(2, 0, 0)];
    let mut bytes = table(&descs);
    assert_eq!(read_descriptor(&bytes, 0), Some(descs[0]));
    assert_eq!(read_descriptor(&bytes, 1), Some(descs[1]));
    assert_eq!(read_descriptor(&bytes, 2), None);
    assert_eq!(read_descriptor(&bytes, u16::MAX), None);
    bytes.pop();
    assert_eq!(read_descriptor(&bytes, 1), None);
}

#[test]
fn read_chain() {
    let descs = [desc(1, NEXT, 1), desc(2, NEXT | WRITE, 2), desc(3, WRITE, 0)];
    let bytes = table(&descs);
    assert_eq!(find_descriptor(&bytes, &descs[0], Wanted::Writable), Walk::Found(descs[1]));
    assert_eq!(find_descriptor(&bytes, &descs[0], Wanted::Last), Walk::Found(descs[2]));
    let payload = Wanted::Payload { head_addr: 1 };
    assert_eq!(find_descriptor(&bytes, &descs[0], payload), Walk::Absent);
}

#[test]
fn write_chain() {
    let descs = [desc(1, NEXT, 1), desc(2, NEXT, 2), desc(3, WRITE, 0)];
    let bytes = table(&descs);
    let payload = Wanted::Payload { head_addr: 1 };
    assert_eq!(find_descriptor(&bytes, &descs[0], payload), Walk::Found(descs[1]));
    assert_eq!(find_descriptor(&bytes, &descs[0], Wanted::Writable), Walk::Found(descs[2]));
}

#[test]
fn buffer_at_the_header_is_no_payload() {
    let descs = [desc(1, NEXT, 1), desc(1, NEXT, 2), desc(3, 0, 0)];
    let bytes = table(&descs);
    let payload = Wanted::Payload { head_addr: 1 };
    assert_eq!(find_descriptor(&bytes, &descs[0], payload), Walk::Found(descs[2]));
}

#[test]
fn chain_of_one() {
    let descs = [desc(1, 0, 5)];
    let bytes = table(&descs);
    assert_eq!(find_descriptor(&bytes, &descs[0], Wanted::Last), Walk::Found(descs[0]));
    assert_eq!(find_descriptor(&bytes, &descs[0], Wanted::Writable), Walk::Absent);
}

#[test]
fn chain_out_of_the_table() {
    let descs = [desc(1, NEXT, 1), desc(2, NEXT, 2)];
    let bytes = table(&descs);
    assert_eq!(find_descriptor(&bytes, &descs[0], Wanted::Last), Walk::Absent);
    assert_eq!(find_descriptor(&bytes, &descs[0], Wanted::Writable), Walk::Absent);
}

#[test]
fn circular_chains() {
    let descs = [desc(1, NEXT, 1), desc(2, NEXT, 2), desc(3, NEXT | WRITE, 1)];
    let bytes = table(&descs);
    assert_eq!(find_descriptor(&bytes, &descs[0], Wanted::Last), Walk::Endless);
    assert_eq!(find_descriptor(&bytes, &descs[0], Wanted::Writable), Walk::Found(descs[2]));
    let own = [desc(1, NEXT, 0)];
    let bytes = table(&own);
    assert_eq!(find_descriptor(&bytes, &own[0], Wanted::Writable), Walk::Endless);
}

#[test]
fn chain_as_long_as_the_table() {
    let mut descs = Vec::new();
    for i in 0..64u16 {
        descs.push(desc(i as u64, NEXT, i + 1));
    }
    descs[63].flags = WRITE;
    let bytes = table(&descs);
    assert_eq!(find_descriptor(&bytes, &descs[0], Wanted::Last), Walk::Found(descs[63]));
    assert_eq!(find_descriptor(&bytes, &descs[0], Wanted::Writable), Walk::Found(descs[63]));
}
