//! Field tags for endpoint discovery messages.

use vstd::prelude::*;

verus! {

/// Endpoint kind. Value 1 is CAT and value 2 is WinKeyer.
pub const KIND: u16 = 1;

/// Stable endpoint identifier from CatHub configuration.
pub const STABLE_ID: u16 = 2;

/// Operator-facing endpoint name.
pub const DISPLAY_NAME: u16 = 3;

/// Enabled state as zero or one.
pub const ENABLED: u16 = 4;

} // verus!
