//! Native backends for Kenwood radios.

pub mod ts590;
