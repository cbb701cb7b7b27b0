//! A fuzz target for onion message handling.

pub mod bytes;
pub mod curve;
pub mod keys;
pub mod message;
pub mod target;
pub mod writer;
