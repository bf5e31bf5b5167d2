//! The side of a client that talks to a node.

pub mod client;
