//! The policy engine: plugin scaffolding, the registry, detectors and
//! actions.

pub mod value;
pub mod interface;
pub mod base;
pub mod actions;
pub mod detectors;
pub mod registry;
pub mod chain;
