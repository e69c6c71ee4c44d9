//! Address derivation, state snapshots and the stub host capabilities of an
//! ownable token runtime.
pub mod address;
pub mod capability;
pub mod color;
pub mod hashing;
pub mod snapshot;
pub mod text;
pub mod types;
