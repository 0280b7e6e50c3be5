//! Gateway core for a binary serial-line device control protocol.
//!
//! The crate covers the protocol logic of the gateway: the opcode
//! registry and typed messages, the resynchronizing frame decoder, the
//! outbound command encoder, the fan-out delivery bus, the reliable
//! delivery coordinator, and the facade that routes caller requests to
//! the encoder and the coordinator.  Transport plumbing (serial port,
//! call dispatch, timers) lives outside the crate and drives these
//! components with plain values.

pub mod bus;
pub mod codec;
pub mod encoder;
pub mod insteon_structs;
pub mod reliable;
pub mod rpc;
