//! Validator core of a fault-proof dispute engine: the proposal model and
//! its tournament tree, divergence location, proof journal encoding, proof
//! artifact naming, preimage validation and caching, and the decisions of
//! the chain-watcher and prover-driver loops.
pub mod args;
pub mod artifact;
pub mod blob;
pub mod bytes;
pub mod cache;
pub mod db;
pub mod host;
pub mod journal;
pub mod persist;
pub mod preimage;
pub mod proposal;
pub mod prover;
pub mod submission;
pub mod text;
pub mod treasury;
pub mod watcher;
