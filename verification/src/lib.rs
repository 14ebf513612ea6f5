//! Virtio-blk virtual block device.
//!
//! The crate emulates a virtio 1.0 block device behind an MMIO register
//! window. Everything the device decides is here: the register file, the walk
//! over the virtqueue that the guest shares with the device, the block
//! requests found in it and the disk in memory. What only the hypervisor can
//! do (touch guest memory, talk to a disk, inject an interrupt) is handed out
//! as a [`step::Step`] together with a continuation that takes the reply.

pub mod backend;
pub mod bytes;
pub mod config;
pub mod device;
pub mod error;
pub mod laws;
pub mod protocol;
pub mod queue;
pub mod registers;
pub mod service;
pub mod step;
pub mod virtio;

pub use device::VirtioBlkDevice;
