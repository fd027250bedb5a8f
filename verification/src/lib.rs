//! CatHub: the verified core of a daemon that lets several radio applications share one
//! transceiver.
//!
//! Everything here is ordinary executable Rust whose behaviour is stated in contracts. The
//! surrounding program does the input and output: it hands bytes, lines and clock readings
//! to this library and performs the actions that the library returns.

pub mod ascii;
pub mod backend;
pub mod config;
pub mod conformance;
pub mod daemon;
pub mod dialect;
pub mod driver;
pub mod error;
pub mod events;
pub mod hamlib_net;
pub mod hub;
pub mod kenwood;
pub mod le;
pub mod managed;
pub mod model;
pub mod order;
pub mod permissions;
pub mod power;
pub mod protocol;
pub mod provisioning;
pub mod ptt;
pub mod radio;
pub mod runtime_info;
pub mod serial_face;
pub mod sharing;
pub mod state;
pub mod text;
