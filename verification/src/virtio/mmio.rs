//! Offsets of the MMIO registers.

use vstd::prelude::*;

verus! {

/// Magic value (read).
pub const MAGIC_VALUE: usize = 0x000;

/// Version of the register layout (read).
pub const VERSION: usize = 0x004;

/// Device type (read).
pub const DEVICE_ID: usize = 0x008;

/// Vendor (read).
pub const VENDOR_ID: usize = 0x00c;

/// Selected half of the device's features (read).
pub const DEVICE_FEATURES: usize = 0x010;

/// Selects a half of the device's features (write).
pub const DEVICE_FEATURES_SEL: usize = 0x014;

/// Features accepted by the driver (write).
pub const DRIVER_FEATURES: usize = 0x020;

/// Selects a half of the driver's features (write).
pub const DRIVER_FEATURES_SEL: usize = 0x024;

/// Selects a queue (write).
pub const QUEUE_SEL: usize = 0x030;

/// Largest queue size (read).
pub const QUEUE_NUM_MAX: usize = 0x034;

/// Queue size in use (write).
pub const QUEUE_NUM: usize = 0x038;

/// Whether the queue is ready (read and write).
pub const QUEUE_READY: usize = 0x044;

/// Tells the device that there are new requests (write).
pub const QUEUE_NOTIFY: usize = 0x050;

/// Pending interrupts (read).
pub const INTERRUPT_STATUS: usize = 0x060;

/// Acknowledges interrupts (write).
pub const INTERRUPT_ACK: usize = 0x064;

/// Device status (read and write).
pub const STATUS: usize = 0x070;

/// Descriptor table address, low half (write).
pub const QUEUE_DESC_LOW: usize = 0x080;

/// Descriptor table address, high half (write).
pub const QUEUE_DESC_HIGH: usize = 0x084;

/// Available ring address, low half (write).
pub const QUEUE_AVAIL_LOW: usize = 0x090;

/// Available ring address, high half (write).
pub const QUEUE_AVAIL_HIGH: usize = 0x094;

/// Used ring address, low half (write).
pub const QUEUE_USED_LOW: usize = 0x0a0;

/// Used ring address, high half (write).
pub const QUEUE_USED_HIGH: usize = 0x0a4;

/// First byte of the configuration space (read and write).
pub const CONFIG: usize = 0x100;

} // verus!
