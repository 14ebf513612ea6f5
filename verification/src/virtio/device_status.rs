//! Bits of the device status register.

use vstd::prelude::*;

verus! {

/// The guest has found the device.
pub const ACKNOWLEDGE: u32 = 1;

/// The guest knows how to drive the device.
pub const DRIVER: u32 = 2;

/// The driver is set up.
pub const DRIVER_OK: u32 = 4;

/// Feature negotiation is complete.
pub const FEATURES_OK: u32 = 8;

/// The device needs a reset.
pub const DEVICE_NEEDS_RESET: u32 = 64;

/// The guest has given up on the device.
pub const FAILED: u32 = 128;

} // verus!
