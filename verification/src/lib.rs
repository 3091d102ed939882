//! Key structures for Orchard.

pub mod address;
pub mod bytes;
pub mod keys;
pub mod laws;
pub mod model;
pub mod pallas;
pub mod protocol;
pub mod redpallas;
