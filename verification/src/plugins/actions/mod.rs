//! Actions: what the daemon does when a detector has triggered.

pub mod kill;
pub mod memory_reclaim;
