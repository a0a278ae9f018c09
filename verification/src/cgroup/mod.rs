//! The cgroup data-source layer: the records it produces and the readers of
//! the version 1 and version 2 hierarchies.

pub mod types;
pub mod interface;
pub mod table;
pub mod reader;
pub mod walk;
pub mod mounts;
pub mod cache;
pub mod v2;
pub mod v1;
pub mod manager;
