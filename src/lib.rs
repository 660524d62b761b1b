//! Host-side serial monitor core: key translation, output decoding, symbol
//! lookup, transcript formatting and the decisions of the monitor session.

pub mod keys;
pub mod transcript;
pub mod error;
pub mod decoder;
pub mod symbols;
pub mod session;
pub mod cli;
pub mod reset;
pub mod partitions;
pub mod markers;
