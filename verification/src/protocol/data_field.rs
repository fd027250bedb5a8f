//! Field tags for data and flow-control messages.

use vstd::prelude::*;

verus! {

/// Monotonic data sequence for one endpoint session.
pub const SEQUENCE: u16 = 1;

/// Opaque application bytes.
pub const BYTES: u16 = 2;

/// Additional receive credit in bytes.
pub const CREDIT: u16 = 3;

} // verus!
