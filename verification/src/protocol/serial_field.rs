//! Field tags for serial configuration messages.

use vstd::prelude::*;

verus! {

/// Baud rate.
pub const BAUD: u16 = 1;

/// Data bit count.
pub const DATA_BITS: u16 = 2;

/// Parity enum.
pub const PARITY: u16 = 3;

/// Stop bit enum.
pub const STOP_BITS: u16 = 4;

/// Flow-control enum.
pub const FLOW_CONTROL: u16 = 5;

/// Read timeout in milliseconds.
pub const READ_TIMEOUT_MS: u16 = 6;

/// Write timeout in milliseconds.
pub const WRITE_TIMEOUT_MS: u16 = 7;

} // verus!
