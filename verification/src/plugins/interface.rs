//! The records that plugins and the engine exchange.

use crate::keyed::KeyedList;
use crate::plugins::value::Value;
use vstd::prelude::*;

verus! {

/// What a detector watches for. Thresholds and percentages are in
/// hundredths of a percent.
#[derive(Debug)]
pub enum DetectorCriteria {
    /// Memory pressure at or above a threshold for a duration.
    MemoryPressure { threshold: u32, duration_seconds: u64, cgroup_pattern: String },
    /// Memory usage at or above a number of bytes or a share of the limit.
    MemoryUsage { threshold_bytes: u64, percentage: Option<u32>, cgroup_pattern: String },
    /// I/O pressure at or above a threshold for a duration.
    IOPressure { threshold: u32, duration_seconds: u64, cgroup_pattern: String },
    /// Criteria of a plugin's own.
    Custom { criteria: KeyedList<Value> },
}

/// How an action ended.
#[derive(Debug)]
pub enum ActionResult {
    /// The action was carried out.
    Success { message: String, details: KeyedList<Value> },
    /// The action was tried and failed.
    Failed { error: String, details: KeyedList<Value> },
    /// The action was not tried.
    Skipped { reason: String },
}

/// The role of a plugin.
#[derive(Debug, Clone, Copy, PartialEq, Eq, Structural)]
pub enum PluginType {
    Detector,
    Action,
    /// Both a detector and an action.
    Hybrid,
}

/// One plugin instantiation record of the configuration.
#[derive(Debug)]
pub struct PluginConfig {
    pub name: String,
    pub plugin_type: PluginType,
    pub enabled: bool,
    pub config: KeyedList<Value>,
    pub priority: i32,
    pub timeout_seconds: Option<u64>,
}

/// What a plugin says of itself.
#[derive(Debug, Clone)]
pub struct PluginMetadata {
    pub name: String,
    pub version: String,
    pub description: String,
    pub author: String,
    pub license: String,
    pub plugin_type: PluginType,
    pub dependencies: Vec<String>,
    pub capabilities: Vec<String>,
}

} // verus!
