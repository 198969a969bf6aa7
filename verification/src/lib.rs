//! Telemetry bridge between flight simulators and a desktop front end.
//!
//! The crate holds the wire formats of the three simulator transports, the
//! rules that turn raw simulator bytes into normalised telemetry, the overlay
//! that fills missing identity fields from a flight plan, and the state
//! machine of the connection manager. Everything here works on plain values;
//! windows, sockets, threads and floating-point arithmetic belong to the
//! program that links this library.

pub mod simbrief;
pub mod simulator;
pub mod text;
pub mod websocket;
pub mod wire;
