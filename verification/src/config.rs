//! Configuration of a device.

use vstd::prelude::*;

verus! {

/// What the configuration of a virtual machine says of a device.
pub struct VirtioBlkMmioDeviceConfig {
    /// Guest physical address of the register window, in hexadecimal.
    pub mmio_base: String,
    /// Size of the register window in bytes, in hexadecimal.
    pub mmio_size: String,
    /// Interrupt that the device raises.
    pub interrupt_number: usize,
    /// Kind of the disk: "file" or "memory".
    pub backend_type: String,
    /// Path of the file that holds the disk; empty or "memory" for a disk in
    /// memory.
    pub backend_path: String,
    /// Whether the guest may only read the disk.
    pub readonly: bool,
    /// Serial number, which the guest can ask for.
    pub serial: String,
}

impl VirtioBlkMmioDeviceConfig {
    /// Whether the configuration asks for a disk in memory.
    pub open spec fn wants_memory(&self) -> bool {
        ||| self.backend_type@ == "memory"@
        ||| self.backend_path@.len() == 0
        ||| self.backend_path@ == "memory"@
    }

    /// Tells whether the configuration asks for a disk in memory.
    pub fn is_memory(&self) -> (memory: bool)
        ensures
            memory == self.wants_memory(),
    {
        let memory: String = "memory".to_owned();
        self.backend_type == memory || self.backend_path.as_str().is_empty() || self.backend_path
            == memory
    }
}

/// `s` without any leading "0x".
pub open spec fn without_hex_prefix(s: Seq<char>) -> Seq<char>
    decreases s.len(),
{
    if s.len() >= 2 && s[0] == '0' && s[1] == 'x' {
        without_hex_prefix(s.skip(2))
    } else {
        s
    }
}

/// The value of a hexadecimal digit.
pub open spec fn hex_digit(c: char) -> Option<nat> {
    if '0' <= c <= '9' {
        Some((c as int - '0' as int) as nat)
    } else if 'a' <= c <= 'f' {
        Some((c as int - 'a' as int + 10) as nat)
    } else if 'A' <= c <= 'F' {
        Some((c as int - 'A' as int + 10) as nat)
    } else {
        None
    }
}

/// The value of a string of hexadecimal digits.
pub open spec fn hex_digits_value(s: Seq<char>) -> Option<nat>
    decreases s.len(),
{
    if s.len() == 0 {
        Some(0)
    } else {
        match (hex_digits_value(s.drop_last()), hex_digit(s.last())) {
            (Some(high), Some(low)) => Some(16 * high + low),
            _ => None,
        }
    }
}

/// The number that `s` writes in hexadecimal: an optional `+` and then one or
/// more digits, with a value that a `usize` can hold.
pub open spec fn hex_number(s: Seq<char>) -> Option<usize> {
    let digits = if s.len() > 0 && s[0] == '+' {
        s.skip(1)
    } else {
        s
    };
    match hex_digits_value(digits) {
        Some(value) => if digits.len() > 0 && value <= usize::MAX {
            Some(value as usize)
        } else {
            None
        },
        None => None,
    }
}

/// The number that an address or size of the configuration stands for.
pub open spec fn configured_number(s: Seq<char>) -> Option<usize> {
    hex_number(without_hex_prefix(s))
}

/// Calls `str::trim_start_matches` with the pattern "0x", which removes that
/// prefix as often as it occurs.
#[verifier::external_body]
fn trim_hex_prefix(s: &str) -> (rest: &str)
    ensures
        rest@ == without_hex_prefix(s@),
{
    s.trim_start_matches("0x")
}

/// Calls `usize::from_str_radix` with radix 16, which accepts an optional `+`
/// followed by one or more hexadecimal digits of either case, and nothing else,
/// where the value fits the type.
#[verifier::external_body]
fn parse_hex(s: &str) -> (value: Option<usize>)
    ensures
        value == hex_number(s@),
{
    usize::from_str_radix(s, 16).ok()
}

/// Reads an address or a size of the configuration.
pub fn parse_number(s: &str) -> (value: Option<usize>)
    ensures
        value == configured_number(s@),
{
    parse_hex(trim_hex_prefix(s))
}

} // verus!
