//! A feature-flag evaluation library: flag definitions with targeting rules,
//! percentage rollouts driven by deterministic hashing, prerequisite
//! resolution, and an in-memory flag store with tombstone filtering.

pub mod bucket;
pub mod client;
pub mod eval;
pub mod event;
pub mod feature_store;
pub mod flag;
pub mod laws;
pub mod ops;
pub mod outside;
pub mod polling;
pub mod user;
pub mod value;

pub use value::Val;
