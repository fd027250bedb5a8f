//! Field tags for attach and detach messages.

use vstd::prelude::*;

verus! {

/// Application session sequence.
pub const SESSION_ID: u16 = 1;

/// Initial receive credit in bytes.
pub const RECEIVE_CREDIT: u16 = 2;

/// Attach options or detach reason.
pub const OPTIONS_OR_REASON: u16 = 3;

/// Optional diagnostic detail.
pub const DETAIL: u16 = 4;

} // verus!
