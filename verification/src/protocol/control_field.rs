//! Field tags for control, lifecycle, purge, and error messages.

use vstd::prelude::*;

verus! {

/// Modem line or purge bitmap.
pub const MASK: u16 = 1;

/// Application process ID.
pub const PROCESS_ID: u16 = 2;

/// Application open sequence or operation ID.
pub const SEQUENCE_OR_OPERATION_ID: u16 = 3;

/// Operation kind or error code.
pub const KIND_OR_ERROR_CODE: u16 = 4;

/// Optional diagnostic detail.
pub const DETAIL: u16 = 5;

} // verus!
