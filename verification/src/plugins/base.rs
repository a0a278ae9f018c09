//! What every plugin shares: its name, its settings, its status map, the
//! enable flag and the counters of runs.
//!
//! Times are milliseconds. The counters stop at the largest `u64`.

use crate::error::OomdError;
use crate::keyed::{lemma_key_position_is, KeyedList};
use crate::model::PluginRet;
use crate::plugins::interface::PluginType;
use crate::plugins::value::{
    duplicate_list, lemma_same_values, view_under, FromValue, Value, ValueView,
};
use vstd::prelude::*;

verus! {

/// One more than `n`, or the largest `u64` where `n` is that.
pub open spec fn counted(n: u64) -> u64 {
    if n < u64::MAX {
        (n + 1) as u64
    } else {
        n
    }
}

/// The names of the statistics differ from each other.
pub proof fn lemma_statistic_names()
    ensures
        "enabled"@ != "error_count"@,
        "enabled"@ != "success_count"@,
        "enabled"@ != "last_run"@,
        "error_count"@ != "success_count"@,
        "error_count"@ != "last_run"@,
        "success_count"@ != "last_run"@,
{
    reveal_strlit("enabled");
    reveal_strlit("error_count");
    reveal_strlit("success_count");
    reveal_strlit("last_run");
    assert("enabled"@.len() == 7);
    assert("error_count"@.len() == 11);
    assert("success_count"@.len() == 13);
    assert("last_run"@.len() == 8);
}

/// The shared part of a plugin.
#[derive(Debug)]
pub struct BasePlugin {
    pub name: String,
    pub version: String,
    pub description: String,
    pub config: KeyedList<Value>,
    pub status: KeyedList<Value>,
    pub enabled: bool,
    pub error_count: u64,
    pub success_count: u64,
    pub last_run: Option<u64>,
}

impl BasePlugin {
    /// Whether `after` differs from `self` in the enable flag at most.
    pub open spec fn same_but_enabled(self, after: BasePlugin) -> bool {
        after.name == self.name && after.version == self.version && after.description
            == self.description && after.config == self.config && after.status == self.status
            && after.error_count == self.error_count && after.success_count == self.success_count
            && after.last_run == self.last_run
    }

    /// Whether `after` differs from `self` in the settings and the status
    /// map at most.
    pub open spec fn same_but_settings(self, after: BasePlugin) -> bool {
        after.name == self.name && after.version == self.version && after.description
            == self.description && after.enabled == self.enabled && after.error_count
            == self.error_count && after.success_count == self.success_count && after.last_run
            == self.last_run
    }

    /// Whether `after` differs from `self` in the status map at most.
    pub open spec fn same_but_status(self, after: BasePlugin) -> bool {
        after.name == self.name && after.version == self.version && after.description
            == self.description && after.config == self.config && after.enabled == self.enabled
            && after.error_count == self.error_count && after.success_count == self.success_count
            && after.last_run == self.last_run
    }

    /// The statistic that is kept under `key`: `enabled`, `error_count`,
    /// `success_count`, and `last_run` once the plugin has run.
    pub open spec fn statistic(self, key: Seq<char>) -> Option<ValueView> {
        if key == "enabled"@ {
            Some(ValueView::Bool(self.enabled))
        } else if key == "error_count"@ {
            Some(ValueView::Unsigned(self.error_count))
        } else if key == "success_count"@ {
            Some(ValueView::Unsigned(self.success_count))
        } else if key == "last_run"@ {
            match self.last_run {
                Some(t) => Some(ValueView::Unsigned(t)),
                None => None,
            }
        } else {
            None
        }
    }

    /// What the merged status holds under `key`: the statistic of that name,
    /// or where there is none what the status map holds.
    pub open spec fn merged_status(self, key: Seq<char>) -> Option<ValueView> {
        match self.statistic(key) {
            Some(v) => Some(v),
            None => view_under(self.status, key),
        }
    }

    /// What the settings give for `key` read as `T`.
    pub open spec fn setting<T: FromValue>(self, key: Seq<char>) -> Option<T> {
        match self.config.lookup(key) {
            Some(v) => T::read(v),
            None => None,
        }
    }

    /// A plugin that is enabled, has no settings and has not run.
    pub fn new(name: &str, version: &str, description: &str) -> (r: BasePlugin)
        ensures
            r.name@ == name@,
            r.version@ == version@,
            r.description@ == description@,
            r.config.keys() == Seq::<Seq<char>>::empty(),
            r.status.keys() == Seq::<Seq<char>>::empty(),
            r.enabled,
            r.error_count == 0,
            r.success_count == 0,
            r.last_run is None,
    {
        BasePlugin {
            name: String::from_str(name),
            version: String::from_str(version),
            description: String::from_str(description),
            config: KeyedList::new(),
            status: KeyedList::new(),
            enabled: true,
            error_count: 0,
            success_count: 0,
            last_run: None,
        }
    }

    /// The statistics of the plugin.
    pub fn get_stats(&self) -> (r: KeyedList<Value>)
        ensures
            forall|k: Seq<char>| #[trigger] view_under(r, k) == self.statistic(k),
            r.keys() == if self.last_run is Some {
                seq!["enabled"@, "error_count"@, "success_count"@, "last_run"@]
            } else {
                seq!["enabled"@, "error_count"@, "success_count"@]
            },
    {
        proof {
            lemma_statistic_names();
        }
        let mut stats: KeyedList<Value> = KeyedList::new();
        proof {
            lemma_key_position_is(stats.keys(), "enabled"@, 0);
        }
        stats.insert(String::from_str("enabled"), Value::Bool(self.enabled));
        proof {
            assert(stats.keys() =~= seq!["enabled"@]);
            lemma_key_position_is(stats.keys(), "error_count"@, 1);
        }
        stats.insert(String::from_str("error_count"), Value::Unsigned(self.error_count));
        proof {
            assert(stats.keys() =~= seq!["enabled"@, "error_count"@]);
            lemma_key_position_is(stats.keys(), "success_count"@, 2);
        }
        stats.insert(String::from_str("success_count"), Value::Unsigned(self.success_count));
        proof {
            assert(stats.keys() =~= seq!["enabled"@, "error_count"@, "success_count"@]);
            lemma_key_position_is(stats.keys(), "last_run"@, 3);
        }
        if let Some(t) = self.last_run {
            stats.insert(String::from_str("last_run"), Value::Unsigned(t));
            assert(stats.keys() =~= seq![
                "enabled"@,
                "error_count"@,
                "success_count"@,
                "last_run"@,
            ]);
        }
        assert forall|k: Seq<char>| #[trigger] view_under(stats, k) == self.statistic(k) by {
            if k != "enabled"@ && k != "error_count"@ && k != "success_count"@ && k
                != "last_run"@ {
                lemma_key_position_is(stats.keys(), k, stats.keys().len() as int);
            }
            if k == "last_run"@ && self.last_run is None {
                lemma_key_position_is(stats.keys(), k, stats.keys().len() as int);
            }
        }
        stats
    }

    /// Enables the plugin.
    pub fn enable(&mut self)
        ensures
            final(self).enabled,
            old(self).same_but_enabled(*final(self)),
    {
        self.enabled = true;
    }

    /// Disables the plugin.
    pub fn disable(&mut self)
        ensures
            !final(self).enabled,
            old(self).same_but_enabled(*final(self)),
    {
        self.enabled = false;
    }

    /// Whether the plugin is enabled.
    pub fn is_enabled(&self) -> (r: bool)
        ensures
            r == self.enabled,
    {
        self.enabled
    }

    /// Counts a run that succeeded at the time `now`.
    pub fn record_success(&mut self, now: u64)
        ensures
            final(self).success_count == counted(old(self).success_count),
            final(self).last_run == Some(now),
            final(self).error_count == old(self).error_count,
            final(self).enabled == old(self).enabled,
            final(self).status == old(self).status,
            final(self).config == old(self).config,
            final(self).name == old(self).name,
            final(self).version == old(self).version,
            final(self).description == old(self).description,
    {
        if self.success_count < u64::MAX {
            self.success_count = self.success_count + 1;
        }
        self.last_run = Some(now);
    }

    /// Counts a run that failed.
    pub fn record_error(&mut self)
        ensures
            final(self).error_count == counted(old(self).error_count),
            final(self).success_count == old(self).success_count,
            final(self).last_run == old(self).last_run,
            final(self).enabled == old(self).enabled,
            final(self).status == old(self).status,
            final(self).config == old(self).config,
            final(self).name == old(self).name,
            final(self).version == old(self).version,
            final(self).description == old(self).description,
    {
        if self.error_count < u64::MAX {
            self.error_count = self.error_count + 1;
        }
    }

    /// Puts `value` under `key` in the status map.
    pub fn update_status(&mut self, key: String, value: Value)
        ensures
            old(self).same_but_status(*final(self)),
            final(self).status.lookup(key@) == Some(value),
            forall|k: Seq<char>|
                k != key@ ==> #[trigger] final(self).status.lookup(k) == old(self).status.lookup(
                    k,
                ),
    {
        self.status.insert(key, value);
    }

    /// The setting under `key` read as `T`. A setting that is missing or of
    /// another kind is a configuration error.
    pub fn get_config<T: FromValue>(&self, key: &str) -> (r: Result<T, OomdError>)
        ensures
            match self.setting::<T>(key@) {
                Some(t) => r == Ok::<T, OomdError>(t),
                None => r is Err && r->Err_0 is Config,
            },
    {
        match self.config.get(key) {
            Some(v) => match T::from_value(v) {
                Some(t) => Ok(t),
                None => Err(OomdError::Config(String::from_str("Failed to parse config"))),
            },
            None => Err(OomdError::Config(String::from_str("Failed to parse config"))),
        }
    }

    /// Whether the settings hold anything under `key`.
    pub fn has_config(&self, key: &str) -> (r: bool)
        ensures
            r == self.config.has(key@),
    {
        self.config.contains_key(key)
    }

    /// The name of the plugin.
    pub fn name(&self) -> (r: &str)
        ensures
            r@ == self.name@,
    {
        self.name.as_str()
    }

    /// The version of the plugin.
    pub fn version(&self) -> (r: &str)
        ensures
            r@ == self.version@,
    {
        self.version.as_str()
    }

    /// What the plugin is for.
    pub fn description(&self) -> (r: &str)
        ensures
            r@ == self.description@,
    {
        self.description.as_str()
    }

    /// Takes the settings and marks the plugin as initialized in its status.
    pub fn init(&mut self, config: KeyedList<Value>)
        ensures
            final(self).config == config,
            final(self).status.lookup("initialized"@) == Some(Value::Bool(true)),
            forall|k: Seq<char>|
                k != "initialized"@ ==> #[trigger] final(self).status.lookup(k)
                    == old(self).status.lookup(k),
            final(self).name == old(self).name,
            final(self).version == old(self).version,
            final(self).description == old(self).description,
            final(self).enabled == old(self).enabled,
            final(self).error_count == old(self).error_count,
            final(self).success_count == old(self).success_count,
            final(self).last_run == old(self).last_run,
    {
        self.config = config;
        self.update_status(String::from_str("initialized"), Value::Bool(true));
    }

    /// Does nothing and lets the chain go on.
    pub fn run(&self) -> (r: PluginRet)
        ensures
            r == PluginRet::Continue,
    {
        PluginRet::Continue
    }

    /// Marks the cleanup as done in the status.
    pub fn cleanup(&mut self)
        ensures
            old(self).same_but_status(*final(self)),
            final(self).status.lookup("cleanup_complete"@) == Some(Value::Bool(true)),
            forall|k: Seq<char>|
                k != "cleanup_complete"@ ==> #[trigger] final(self).status.lookup(k)
                    == old(self).status.lookup(k),
    {
        self.update_status(String::from_str("cleanup_complete"), Value::Bool(true));
    }

    /// The status map with the statistics laid over it.
    pub fn get_status(&self) -> (r: KeyedList<Value>)
        ensures
            forall|k: Seq<char>| #[trigger] view_under(r, k) == self.merged_status(k),
    {
        proof {
            lemma_statistic_names();
        }
        let mut status = duplicate_list(&self.status);
        proof {
            lemma_same_values(status, self.status);
        }
        let ghost s0 = status;
        status.insert(String::from_str("enabled"), Value::Bool(self.enabled));
        let ghost s1 = status;
        status.insert(String::from_str("error_count"), Value::Unsigned(self.error_count));
        let ghost s2 = status;
        status.insert(String::from_str("success_count"), Value::Unsigned(self.success_count));
        let ghost s3 = status;
        if let Some(t) = self.last_run {
            status.insert(String::from_str("last_run"), Value::Unsigned(t));
        }
        assert forall|k: Seq<char>| #[trigger] view_under(status, k) == self.merged_status(k) by {
            assert(view_under(s0, k) == view_under(self.status, k));
            if k != "enabled"@ {
                assert(s1.lookup(k) == s0.lookup(k));
            }
            if k != "error_count"@ {
                assert(s2.lookup(k) == s1.lookup(k));
            }
            if k != "success_count"@ {
                assert(s3.lookup(k) == s2.lookup(k));
            }
            if k != "last_run"@ {
                assert(status.lookup(k) == s3.lookup(k));
            }
        }
        status
    }
}

/// The settings that every plugin record may carry.
#[derive(Debug)]
pub struct PluginConfigHelper {
    pub enabled: bool,
    pub priority: i32,
    pub timeout_seconds: u64,
    pub retry_count: u32,
    pub retry_delay_seconds: u64,
    pub log_level: String,
}

/// What a settings object gives for `key` read as `T`.
pub open spec fn setting_of<T: FromValue>(config: KeyedList<Value>, key: Seq<char>) -> Option<T> {
    match config.lookup(key) {
        Some(v) => T::read(v),
        None => None,
    }
}

/// Reads the setting under `key` as `T`.
pub fn read_setting<T: FromValue>(config: &KeyedList<Value>, key: &str) -> (r: Option<T>)
    ensures
        r == setting_of::<T>(*config, key@),
{
    match config.get(key) {
        Some(v) => T::from_value(v),
        None => None,
    }
}

impl Default for PluginConfigHelper {
    /// Enabled, priority 0, 30 seconds to run, three tries one second apart,
    /// log level `info`.
    fn default() -> (r: PluginConfigHelper)
        ensures
            r.enabled,
            r.priority == 0,
            r.timeout_seconds == 30,
            r.retry_count == 3,
            r.retry_delay_seconds == 1,
            r.log_level@ == "info"@,
    {
        PluginConfigHelper {
            enabled: true,
            priority: 0,
            timeout_seconds: 30,
            retry_count: 3,
            retry_delay_seconds: 1,
            log_level: String::from_str("info"),
        }
    }
}

impl PluginConfigHelper {
    /// Whether a settings object holds all six settings, each of its kind.
    pub open spec fn complete(config: KeyedList<Value>) -> bool {
        setting_of::<bool>(config, "enabled"@) is Some && setting_of::<i32>(config, "priority"@)
            is Some && setting_of::<u64>(config, "timeout_seconds"@) is Some && setting_of::<u32>(
            config,
            "retry_count"@,
        ) is Some && setting_of::<u64>(config, "retry_delay_seconds"@) is Some && setting_of::<
            String,
        >(config, "log_level"@) is Some
    }

    /// Whether the settings can be used: at least one try and one second.
    pub open spec fn valid(self) -> bool {
        self.retry_count != 0 && self.timeout_seconds != 0
    }

    /// Reads the settings from a settings object. All six must be there,
    /// each of its kind; else that is a configuration error.
    pub fn from_config(config: &KeyedList<Value>) -> (r: Result<PluginConfigHelper, OomdError>)
        ensures
            Self::complete(*config) ==> r is Ok && r->Ok_0.enabled == setting_of::<bool>(
                *config,
                "enabled"@,
            )->0 && r->Ok_0.priority == setting_of::<i32>(*config, "priority"@)->0
                && r->Ok_0.timeout_seconds == setting_of::<u64>(*config, "timeout_seconds"@)->0
                && r->Ok_0.retry_count == setting_of::<u32>(*config, "retry_count"@)->0
                && r->Ok_0.retry_delay_seconds == setting_of::<u64>(
                *config,
                "retry_delay_seconds"@,
            )->0 && r->Ok_0.log_level == setting_of::<String>(*config, "log_level"@)->0,
            !Self::complete(*config) ==> r is Err && r->Err_0 is Config,
    {
        let enabled = read_setting::<bool>(config, "enabled");
        let priority = read_setting::<i32>(config, "priority");
        let timeout_seconds = read_setting::<u64>(config, "timeout_seconds");
        let retry_count = read_setting::<u32>(config, "retry_count");
        let retry_delay_seconds = read_setting::<u64>(config, "retry_delay_seconds");
        let log_level = read_setting::<String>(config, "log_level");
        match (enabled, priority, timeout_seconds, retry_count, retry_delay_seconds, log_level) {
            (
                Some(enabled),
                Some(priority),
                Some(timeout_seconds),
                Some(retry_count),
                Some(retry_delay_seconds),
                Some(log_level),
            ) => Ok(
                PluginConfigHelper {
                    enabled,
                    priority,
                    timeout_seconds,
                    retry_count,
                    retry_delay_seconds,
                    log_level,
                },
            ),
            _ => Err(OomdError::Config(String::from_str("Failed to parse plugin config"))),
        }
    }

    /// Checks the settings: no tries at all, or no time to run, is a
    /// configuration error.
    pub fn validate(&self) -> (r: Result<(), OomdError>)
        ensures
            self.valid() ==> r is Ok,
            !self.valid() ==> r is Err && r->Err_0 is Config,
    {
        if self.retry_count == 0 {
            return Err(OomdError::Config(String::from_str("Retry count must be at least 1")));
        }
        if self.timeout_seconds == 0 {
            return Err(OomdError::Config(String::from_str("Timeout must be at least 1 second")));
        }
        Ok(())
    }
}

/// How one run of a plugin is to be made.
#[derive(Debug)]
pub struct PluginExecutionContext {
    pub plugin_name: String,
    pub plugin_type: PluginType,
    pub config: KeyedList<Value>,
    pub dry_run: bool,
    pub verbose_logging: bool,
}

impl PluginExecutionContext {
    /// A run for real, without verbose logging.
    pub fn new(name: String, plugin_type: PluginType, config: KeyedList<Value>) -> (r:
        PluginExecutionContext)
        ensures
            r.plugin_name == name,
            r.plugin_type == plugin_type,
            r.config == config,
            !r.dry_run,
            !r.verbose_logging,
    {
        PluginExecutionContext {
            plugin_name: name,
            plugin_type,
            config,
            dry_run: false,
            verbose_logging: false,
        }
    }

    /// The same run, as a dry run or not.
    pub fn with_dry_run(self, dry_run: bool) -> (r: PluginExecutionContext)
        ensures
            r.dry_run == dry_run,
            r.plugin_name == self.plugin_name,
            r.plugin_type == self.plugin_type,
            r.config == self.config,
            r.verbose_logging == self.verbose_logging,
    {
        let mut r = self;
        r.dry_run = dry_run;
        r
    }

    /// The same run, with verbose logging or not.
    pub fn with_verbose_logging(self, verbose: bool) -> (r: PluginExecutionContext)
        ensures
            r.verbose_logging == verbose,
            r.plugin_name == self.plugin_name,
            r.plugin_type == self.plugin_type,
            r.config == self.config,
            r.dry_run == self.dry_run,
    {
        let mut r = self;
        r.verbose_logging = verbose;
        r
    }
}

/// The record of one run of a plugin.
#[derive(Debug)]
pub struct PluginExecutionResult {
    pub plugin_name: String,
    pub plugin_type: PluginType,
    pub result: PluginRet,
    pub execution_time_ms: u64,
    pub message: Option<String>,
    pub metadata: KeyedList<Value>,
}

impl PluginExecutionResult {
    /// A record without a time, a message or metadata.
    pub fn new(name: String, plugin_type: PluginType, result: PluginRet) -> (r:
        PluginExecutionResult)
        ensures
            r.plugin_name == name,
            r.plugin_type == plugin_type,
            r.result == result,
            r.execution_time_ms == 0,
            r.message is None,
            r.metadata.keys() == Seq::<Seq<char>>::empty(),
    {
        PluginExecutionResult {
            plugin_name: name,
            plugin_type,
            result,
            execution_time_ms: 0,
            message: None,
            metadata: KeyedList::new(),
        }
    }

    /// The same record with the time that the run took.
    pub fn with_execution_time(self, time_ms: u64) -> (r: PluginExecutionResult)
        ensures
            r.execution_time_ms == time_ms,
            r.plugin_name == self.plugin_name,
            r.plugin_type == self.plugin_type,
            r.result == self.result,
            r.message == self.message,
            r.metadata == self.metadata,
    {
        let mut r = self;
        r.execution_time_ms = time_ms;
        r
    }

    /// The same record with a message.
    pub fn with_message(self, message: String) -> (r: PluginExecutionResult)
        ensures
            r.message == Some(message),
            r.plugin_name == self.plugin_name,
            r.plugin_type == self.plugin_type,
            r.result == self.result,
            r.execution_time_ms == self.execution_time_ms,
            r.metadata == self.metadata,
    {
        let mut r = self;
        r.message = Some(message);
        r
    }

    /// The same record with metadata.
    pub fn with_metadata(self, metadata: KeyedList<Value>) -> (r: PluginExecutionResult)
        ensures
            r.metadata == metadata,
            r.plugin_name == self.plugin_name,
            r.plugin_type == self.plugin_type,
            r.result == self.result,
            r.execution_time_ms == self.execution_time_ms,
            r.message == self.message,
    {
        let mut r = self;
        r.metadata = metadata;
        r
    }
}

/// What is to be done with a plugin in one run.
#[derive(Debug, Clone, Copy, PartialEq, Eq, Structural)]
pub enum RunDecision {
    /// The plugin is disabled and is not run.
    Disabled,
    /// The run is a dry run: the plugin is not run and the chain goes on.
    DryRun,
    /// The plugin is run.
    Run,
}

/// Decides what is to be done with a plugin: nothing where it is disabled
/// or the run is a dry run.
pub fn decide_run(enabled: bool, exec_context: &PluginExecutionContext) -> (r: RunDecision)
    ensures
        r == if !enabled {
            RunDecision::Disabled
        } else if exec_context.dry_run {
            RunDecision::DryRun
        } else {
            RunDecision::Run
        },
{
    if !enabled {
        RunDecision::Disabled
    } else if exec_context.dry_run {
        RunDecision::DryRun
    } else {
        RunDecision::Run
    }
}

/// The message of a run that failed with `error`.
pub open spec fn failure_heading() -> Seq<char> {
    "Plugin execution failed: "@
}

/// Records one run of the plugin `name`. `outcome` is what the plugin
/// returned where it was run, and `elapsed_ms` the time that took.
///
/// A disabled plugin is recorded with no time and the message that it is
/// disabled. A dry run lets the chain go on. A run that failed also lets the
/// chain go on, and its message tells the error: a failure is no stop.
pub fn run_with_context(
    name: &str,
    exec_context: &PluginExecutionContext,
    decision: RunDecision,
    outcome: Result<PluginRet, OomdError>,
    elapsed_ms: u64,
) -> (r: PluginExecutionResult)
    ensures
        r.plugin_name@ == name@,
        r.plugin_type == exec_context.plugin_type,
        r.metadata.keys() == Seq::<Seq<char>>::empty(),
        decision == RunDecision::Disabled ==> r.result == PluginRet::Continue
            && r.execution_time_ms == 0 && r.message is Some && r.message->0@
            == "Plugin disabled"@,
        decision == RunDecision::DryRun ==> r.result == PluginRet::Continue
            && r.execution_time_ms == elapsed_ms && r.message is None,
        decision == RunDecision::Run && outcome is Ok ==> r.result == outcome->Ok_0
            && r.execution_time_ms == elapsed_ms && r.message is None,
        decision == RunDecision::Run && outcome is Err ==> r.result == PluginRet::Continue
            && r.execution_time_ms == elapsed_ms && r.message is Some && crate::text::starts_with(
            r.message->0@,
            failure_heading() + outcome->Err_0.heading(),
        ) && (outcome->Err_0.detail() is Some ==> r.message->0@ == failure_heading()
            + outcome->Err_0.heading() + outcome->Err_0.detail()->0),
{
    let plugin_type = exec_context.plugin_type;
    match decision {
        RunDecision::Disabled => PluginExecutionResult::new(
            String::from_str(name),
            plugin_type,
            PluginRet::Continue,
        ).with_execution_time(0).with_message(String::from_str("Plugin disabled")),
        RunDecision::DryRun => PluginExecutionResult::new(
            String::from_str(name),
            plugin_type,
            PluginRet::Continue,
        ).with_execution_time(elapsed_ms),
        RunDecision::Run => match outcome {
            Ok(ret) => PluginExecutionResult::new(
                String::from_str(name),
                plugin_type,
                ret,
            ).with_execution_time(elapsed_ms),
            Err(e) => {
                let text = e.message();
                let mut out: Vec<char> = Vec::new();
                crate::number::write_str(&mut out, "Plugin execution failed: ");
                crate::number::write_str(&mut out, text.as_str());
                proof {
                    let head = failure_heading() + e.heading();
                    assert(out@.take(head.len() as int) =~= head) by {
                        assert(text@.take(e.heading().len() as int) == e.heading());
                        assert forall|k: int| 0 <= k < head.len() implies out@[k] == head[k] by {
                            if k >= failure_heading().len() {
                                assert(text@.take(e.heading().len() as int)[k
                                    - failure_heading().len()] == text@[k
                                    - failure_heading().len()]);
                            }
                        }
                    }
                    if e.detail() is Some {
                        assert(out@ =~= failure_heading() + e.heading() + e.detail()->0);
                    }
                }
                PluginExecutionResult::new(
                    String::from_str(name),
                    plugin_type,
                    PluginRet::Continue,
                ).with_execution_time(elapsed_ms).with_message(crate::text::string_of(&out))
            },
        },
    }
}

} // verus!
