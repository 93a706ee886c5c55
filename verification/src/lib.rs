//! Firmware upload over a serial link to a radio's bootloader: framing,
//! handshake detection and the block transfer, as a protocol engine that
//! performs no I/O of its own.
//!
//! The caller owns the transport. It asks the engine what to do next
//! (read a byte, write some bytes, flush), does it, and reports the outcome;
//! the engine answers with the next step until the upload has finished.

pub mod errors;
pub mod firmware;
pub mod framer;
pub mod handshake;
pub mod session;
pub mod trace;
