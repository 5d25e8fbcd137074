//! Drives DMX512 lighting fixtures: parses channel directives, folds them into
//! a 512-channel universe, frames the universe for a serial bridge, and keeps
//! the last universe sent as 512 raw bytes between invocations.

pub mod directive;
pub mod store;
pub mod transmit;
pub mod session;
