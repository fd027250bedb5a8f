//! Runtime endpoint publication for launcher-managed CatHub processes.

use vstd::prelude::*;

use crate::text::decimal;
use crate::text::push_decimal;

verus! {

/// The version of the published document.
pub const SCHEMA_VERSION: u32 = 1;

/// One effective Hamlib network endpoint.
#[derive(Debug, Clone, PartialEq, Eq)]
pub struct HamlibEndpoint {
    /// The name of the endpoint.
    pub name: String,
    /// Its address.
    pub endpoint: String,
}

/// Effective endpoints for one ready CatHub process.
#[derive(Debug, Clone, PartialEq, Eq)]
pub struct RuntimeInfo {
    /// The version of the document.
    pub schema_version: u32,
    /// The process that publishes it.
    pub pid: u32,
    /// The keyer's API address.
    pub winkeyer_endpoint: Option<String>,
    /// The Hamlib endpoints.
    pub hamlib_endpoints: Vec<HamlibEndpoint>,
}

impl RuntimeInfo {
    /// What a process publishes.
    #[must_use]
    pub fn new(
        pid: u32,
        winkeyer_endpoint: Option<String>,
        hamlib_endpoints: Vec<HamlibEndpoint>,
    ) -> (r: Self)
        ensures
            r == (RuntimeInfo {
                schema_version: SCHEMA_VERSION,
                pid,
                winkeyer_endpoint,
                hamlib_endpoints,
            }),
    {
        RuntimeInfo { schema_version: SCHEMA_VERSION, pid, winkeyer_endpoint, hamlib_endpoints }
    }

    /// The extension of the file that is written before it takes the place of the published
    /// one, so that no reader ever sees half a document.
    #[must_use]
    pub fn temporary_extension(&self) -> (r: String)
        ensures
            r@ == "tmp-"@ + decimal(self.pid as nat),
    {
        let mut out = "tmp-".to_owned();
        push_decimal(&mut out, self.pid as u64);
        out
    }
}

/// Whether a process that ends may remove the published file: only where the file is readable
/// and still its own.
#[must_use]
pub fn may_remove(published_pid: Option<u32>, pid: u32) -> (r: bool)
    ensures
        r == (published_pid == Some(pid)),
{
    match published_pid {
        Some(owner) => owner == pid,
        None => false,
    }
}

} // verus!
