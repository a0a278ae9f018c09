//! Detectors: predicates over a snapshot.

pub mod memory_pressure;
pub mod memory_usage;
