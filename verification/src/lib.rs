//! Verified core of a gateway that exposes Modbus-RTU relay cards ("coil"
//! devices) on one shared serial bus as a named topology.
//!
//! The library holds the logic of the gateway: the static topology and its
//! validation, the live per-device and per-coil state, the state machine that
//! every bus operation drives, and the rules that guard a device-address
//! reassignment. The physical serial exchange, the HTTP facade and the
//! configuration file format live outside the library; they hand in plain
//! values (an operation to perform, the outcome of an exchange) and take
//! plain values back.

pub mod api;
pub mod bus;
pub mod cli;
pub mod config;
pub mod state;
pub mod text;
