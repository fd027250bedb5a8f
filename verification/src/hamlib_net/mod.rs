//! Hamlib `rigctld`-compatible server face.
//!
//! This is a thin server side of the rigctld net protocol; it never links Hamlib. Modeled
//! reads come from the universal state; writes participate in serialization, the PTT lease,
//! and event fan-out. Set commands never emit a VFO-target write (frequency always lands on
//! the active VFO), preserving the no-VFO-retargeting invariant.

pub mod command;
pub mod extended;
pub mod lines;
pub mod plain;
pub mod readback;
pub mod session;

