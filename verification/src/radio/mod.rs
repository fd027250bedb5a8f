//! The single-owner radio task: transport framing and reply matching, and the per-session
//! priority scheduler that serializes every backend operation.

pub mod framer;
pub mod operation;
pub mod scheduler;
pub mod supervisor;
pub mod transport;
