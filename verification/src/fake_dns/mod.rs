//! A DNS server that passes questions on to remote resolvers.

pub mod cidr_cache;
pub mod client_cache;
pub mod message;
pub mod options;
pub mod processor;
pub mod server;
pub mod upstream;
