//! Core of a userspace out-of-memory policy daemon: parsing of cgroup
//! telemetry, context assembly, and the detector and action policies.

pub mod cgroup;
pub mod error;
pub mod keyed;
pub mod model;
pub mod number;
pub mod plugins;
pub mod sorting;
pub mod text;
