//! A capability-addressed state access layer: typed capability references,
//! a global and a context-local key-value partition, and a registry of
//! versioned contracts with user groups, all checked against an in-memory
//! model of the host.
pub mod capability;
pub mod error;
pub mod key;
pub mod model;
pub mod storage;
pub mod registry;
pub mod laws;
