//! Connections on the machine's own network.

pub mod copy;
pub mod interface;
