//! Feature bits exchanged in `Hello` and `HelloAck` field 7.

use vstd::prelude::*;

verus! {

/// The peer reports application open and close events.
pub const APPLICATION_LIFECYCLE: u64 = 0x01;

/// The peer reports serial format changes.
pub const SERIAL_CONFIG: u64 = 0x02;

/// The peer reports modem control and status changes.
pub const MODEM_LINES: u64 = 0x04;

/// The peer reports cancellation requests.
pub const CANCELLATION: u64 = 0x08;

/// The peer reports purge and queue reset requests.
pub const PURGE: u64 = 0x10;

/// The peer supports health requests.
pub const HEALTH: u64 = 0x20;

/// The device contains more than one endpoint.
pub const MULTI_ENDPOINT: u64 = 0x40;

/// The peer applies explicit receive credit to data frames.
pub const RECEIVE_CREDIT: u64 = 0x80;

} // verus!
