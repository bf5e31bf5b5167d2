//! A framework for deterministic state machines that run on top of a consensus engine
//! and keep their state in a key/value store.
//!
//! - `store`: stores that can be read and written, buffers of writes over a store, and
//!   views of a store under a prefix.
//! - `abci`: the state machine that serves the requests of the consensus engine, and
//!   keeps the writes of a block and the writes of transaction checks apart.
//! - `plugins`: the layers that wrap an application.
//! - `coins`: accounts and their balances.
//! - `tendermint`: what a client makes of the answers of a node.
//!
//! The library reads no socket, file or clock; what it needs from outside it takes as a
//! value.

pub mod abci;
pub mod call;
pub mod coins;
pub mod encoding;
pub mod error;
pub mod migrate;
pub mod plugins;
pub mod store;
pub mod tendermint;
pub mod text;
