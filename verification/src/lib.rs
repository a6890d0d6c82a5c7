//! Decoder for BACnet application-layer messages.
//!
//! The crate turns the bytes of one delivered APDU into typed values. Every
//! decoder is a total function on its input: malformed bytes give an
//! [`Error`], never a panic, and each contract states the result for every
//! input.

pub mod error;
pub mod nsdu;

pub use error::Error;
