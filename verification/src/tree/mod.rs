//! The state tree as the node uses it: what a batch of storage logs asks of the Merkle tree, what
//! the node derives from the tree's answer, and which versions of the tree are saved.

pub mod contents;
pub mod database;
pub mod domain;
pub mod entries;
pub mod history;
pub mod laws;
pub mod request_laws;
pub mod state_laws;
pub mod thread_pool;
pub mod witness;
pub mod witness_laws;
pub mod writes;
