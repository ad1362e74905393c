//! Turns a snapshot of network interfaces, addresses and routes into
//! declarative network unit documents, keeping only the facts that express
//! persistent, user-intended configuration.

pub mod emit;
pub mod filter;
pub mod model;
pub mod laws;
