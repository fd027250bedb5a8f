//! Field tags for `Hello` and `HelloAck` messages.

use vstd::prelude::*;

verus! {

/// Lowest supported protocol major version.
pub const MIN_MAJOR: u16 = 1;

/// Lowest supported protocol minor version.
pub const MIN_MINOR: u16 = 2;

/// Highest supported protocol major version.
pub const MAX_MAJOR: u16 = 3;

/// Highest supported protocol minor version.
pub const MAX_MINOR: u16 = 4;

/// Largest frame in bytes that the peer accepts.
pub const MAX_FRAME_BYTES: u16 = 5;

/// Initial receive credit in bytes.
pub const RECEIVE_WINDOW_BYTES: u16 = 6;

/// Supported feature bitmap.
pub const FEATURES: u16 = 7;

/// Daemon or driver identity string.
pub const IDENTITY: u16 = 8;

} // verus!
