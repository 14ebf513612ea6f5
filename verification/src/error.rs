//! Errors of the device.

use vstd::prelude::*;

verus! {

/// Why an operation was refused or failed.
#[derive(Clone, Copy, Debug, PartialEq, Eq, Structural)]
pub enum BlkError {
    /// An argument, a register access or a request of the guest is invalid.
    InvalidInput,
    /// The operation is not supported.
    Unsupported,
    /// A file does not exist.
    NotFound,
    /// Reading or writing failed.
    Io,
    /// Any other error of the hypervisor, by its error code.
    Host {
        /// The hypervisor's error code.
        code: i32,
    },
}

} // verus!
