//! The memory usage detector: triggers when a cgroup uses at least a number
//! of bytes, or at least a share of its memory limit.
//!
//! The share is a percentage in hundredths of a percent. It is compared
//! exactly: a usage `u` under a limit `l` reaches the share `p` where
//! `u * 10000 >= p * l`.

use crate::cgroup::types::OomdContext;
use crate::error::OomdError;
use crate::keyed::{key_texts, lemma_key_position_is, KeyedList};
use crate::model::PluginRet;
use crate::plugins::base::{read_setting, setting_of, BasePlugin};
use crate::plugins::detectors::memory_pressure::{
    matching_cgroups, pattern_watches, watched_keys, watches,
};
use crate::plugins::interface::DetectorCriteria;
use crate::plugins::value::{view_under, Fixed, Value, ValueView};
use vstd::prelude::*;

verus! {

/// Whether a usage reaches the share `percentage` of a limit. No usage
/// reaches a share of no limit at all.
pub open spec fn share_reached(usage: u64, limit: u64, percentage: Fixed) -> bool {
    limit != 0 && usage * 10000 >= percentage.hundredths * limit
}

/// Whether a usage triggers: it is at least the threshold in bytes, or a
/// share is set, the limit is known and the usage reaches the share.
pub open spec fn usage_exceeded(
    usage: u64,
    limit: Option<u64>,
    threshold_bytes: u64,
    percentage: Option<Fixed>,
) -> bool {
    usage >= threshold_bytes || (percentage is Some && limit is Some && share_reached(
        usage,
        limit->0,
        percentage->0,
    ))
}

/// Whether a share can be used: above 0 % and at most 100 %.
pub open spec fn valid_share(percentage: Option<Fixed>) -> bool {
    match percentage {
        Some(p) => 0 < p.hundredths <= 10000,
        None => true,
    }
}

/// Whether a usage reaches the share `percentage` of a limit.
pub fn reaches_share(usage: u64, limit: u64, percentage: Fixed) -> (r: bool)
    ensures
        r == share_reached(usage, limit, percentage),
{
    if limit == 0 {
        return false;
    }
    let u: i128 = usage as i128;
    let l: i128 = limit as i128;
    let p: i128 = percentage.hundredths as i128;
    assert(-0x8000_0000_0000_0000 * 0xffff_ffff_ffff_ffff <= p * l <= 0x7fff_ffff_ffff_ffff
        * 0xffff_ffff_ffff_ffff) by (nonlinear_arith)
        requires
            -0x8000_0000_0000_0000 <= p <= 0x7fff_ffff_ffff_ffff,
            0 <= l <= 0xffff_ffff_ffff_ffff,
    ;
    u * 10000 >= p * l
}

/// The detector of memory usage.
#[derive(Debug)]
pub struct MemoryUsageDetector {
    pub base: BasePlugin,
    pub threshold_bytes: u64,
    pub threshold_percentage: Option<Fixed>,
    pub cgroup_pattern: String,
}

impl MemoryUsageDetector {
    /// Whether `after` differs from `self` in the status at most.
    pub open spec fn same_settings(self, after: MemoryUsageDetector) -> bool {
        self.base.same_but_status(after.base) && after.threshold_bytes == self.threshold_bytes
            && after.threshold_percentage == self.threshold_percentage && after.cgroup_pattern
            == self.cgroup_pattern
    }

    /// Whether the cgroup at index `i` of the snapshot triggers the
    /// detector: the detector watches it, its usage was read, and the usage
    /// triggers.
    pub open spec fn triggers(self, context: OomdContext, i: int) -> bool {
        let c = context.cgroups.values()[i];
        watches(self.cgroup_pattern@, context.cgroups.keys()[i]) && c.memory_usage is Some
            && usage_exceeded(
            c.memory_usage->0,
            c.memory_limit,
            self.threshold_bytes,
            self.threshold_percentage,
        )
    }

    /// The keys of the first `n` cgroups of the snapshot that trigger the
    /// detector, in order.
    pub open spec fn triggered_first(self, context: OomdContext, n: nat) -> Seq<Seq<char>>
        decreases n,
    {
        if n == 0 {
            Seq::empty()
        } else if self.triggers(context, n - 1) {
            self.triggered_first(context, (n - 1) as nat).push(context.cgroups.keys()[n - 1])
        } else {
            self.triggered_first(context, (n - 1) as nat)
        }
    }

    /// The keys of the cgroups of the snapshot that trigger the detector.
    pub open spec fn triggered(self, context: OomdContext) -> Seq<Seq<char>> {
        self.triggered_first(context, context.cgroups.keys().len())
    }

    /// Whether the settings can be used: a threshold of at least one byte,
    /// and where a share is set, one above 0 % and at most 100 %.
    pub open spec fn usable(self) -> bool {
        self.threshold_bytes != 0 && valid_share(self.threshold_percentage)
    }

    /// Whether `after` is `self` with the settings `config` taken: each
    /// setting that `config` gives in its kind is taken, the others stay;
    /// the status says that the plugin is initialized and, where the
    /// settings can be used, tells the three settings. Nothing else changes.
    pub open spec fn configured(
        self,
        after: MemoryUsageDetector,
        config: KeyedList<Value>,
    ) -> bool {
        &&& after.threshold_bytes == match setting_of::<u64>(config, "threshold_bytes"@) {
            Some(t) => t,
            None => self.threshold_bytes,
        }
        &&& after.threshold_percentage == match setting_of::<Fixed>(
            config,
            "threshold_percentage"@,
        ) {
            Some(p) => Some(p),
            None => self.threshold_percentage,
        }
        &&& after.cgroup_pattern == match setting_of::<String>(config, "cgroup_pattern"@) {
            Some(p) => p,
            None => self.cgroup_pattern,
        }
        &&& after.base.config == config
        &&& self.base.same_but_settings(after.base)
        &&& view_under(after.base.status, "initialized"@) == Some(ValueView::Bool(true))
        &&& after.usable() ==> view_under(after.base.status, "threshold_bytes"@) == Some(
            ValueView::Unsigned(after.threshold_bytes),
        ) && view_under(after.base.status, "threshold_percentage"@) == Some(
            match after.threshold_percentage {
                Some(p) => ValueView::Hundredths(p.hundredths),
                None => ValueView::Null,
            },
        ) && view_under(after.base.status, "cgroup_pattern"@) == Some(
            ValueView::Text(after.cgroup_pattern@),
        )
        &&& forall|k: Seq<char>|
            k != "initialized"@ && (!after.usable() || (k != "threshold_bytes"@ && k
                != "threshold_percentage"@ && k != "cgroup_pattern"@))
                ==> #[trigger] after.base.status.lookup(k) == self.base.status.lookup(k)
    }

    /// Whether `after` is `self` after a run on the snapshot that returned
    /// `r`. The run stops the chain exactly where a cgroup triggers; the
    /// status tells whether it did and for which cgroups; and nothing else
    /// changes. A disabled detector lets the chain go on and changes nothing.
    pub open spec fn ran(
        self,
        after: MemoryUsageDetector,
        context: OomdContext,
        r: PluginRet,
    ) -> bool {
        &&& self.same_settings(after)
        &&& !self.base.enabled ==> r == PluginRet::Continue && after == self
        &&& self.base.enabled ==> (r == PluginRet::Stop <==> self.triggered(context).len() > 0)
        &&& self.base.enabled ==> view_under(after.base.status, "triggered"@) == Some(
            ValueView::Bool(r == PluginRet::Stop),
        )
        &&& self.base.enabled && r == PluginRet::Stop ==> view_under(
            after.base.status,
            "triggered_cgroups"@,
        ) == Some(ValueView::Texts(self.triggered(context)))
        &&& self.base.enabled && r != PluginRet::Stop ==> after.base.status.lookup(
            "triggered_cgroups"@,
        ) == self.base.status.lookup("triggered_cgroups"@)
        &&& forall|k: Seq<char>|
            k != "triggered"@ && k != "triggered_cgroups"@ ==> #[trigger] after.base.status.lookup(
                k,
            ) == self.base.status.lookup(k)
    }

    /// A detector of a usage of 1 GiB or more in any cgroup.
    pub fn new() -> (r: MemoryUsageDetector)
        ensures
            r.base.name@ == "memory_usage_detector"@,
            r.base.enabled,
            r.threshold_bytes == 1073741824,
            r.threshold_percentage is None,
            r.cgroup_pattern@ == "*"@,
    {
        MemoryUsageDetector {
            base: BasePlugin::new(
                "memory_usage_detector",
                "1.0.0",
                "Detects when memory usage exceeds threshold",
            ),
            threshold_bytes: 1073741824,
            threshold_percentage: None,
            cgroup_pattern: String::from_str("*"),
        }
    }

    /// The same detector with another threshold in bytes.
    pub fn with_threshold_bytes(self, threshold_bytes: u64) -> (r: MemoryUsageDetector)
        ensures
            r.threshold_bytes == threshold_bytes,
            r.base == self.base,
            r.threshold_percentage == self.threshold_percentage,
            r.cgroup_pattern == self.cgroup_pattern,
    {
        let mut r = self;
        r.threshold_bytes = threshold_bytes;
        r
    }

    /// The same detector with a share of the limit as a second threshold.
    pub fn with_threshold_percentage(self, threshold_percentage: Fixed) -> (r: MemoryUsageDetector)
        ensures
            r.threshold_percentage == Some(threshold_percentage),
            r.base == self.base,
            r.threshold_bytes == self.threshold_bytes,
            r.cgroup_pattern == self.cgroup_pattern,
    {
        let mut r = self;
        r.threshold_percentage = Some(threshold_percentage);
        r
    }

    /// The same detector with another pattern.
    pub fn with_cgroup_pattern(self, pattern: String) -> (r: MemoryUsageDetector)
        ensures
            r.cgroup_pattern == pattern,
            r.base == self.base,
            r.threshold_bytes == self.threshold_bytes,
            r.threshold_percentage == self.threshold_percentage,
    {
        let mut r = self;
        r.cgroup_pattern = pattern;
        r
    }

    /// The keys of the snapshot that the detector watches.
    pub fn find_matching_cgroups(&self, context: &OomdContext) -> (r: Vec<String>)
        ensures
            key_texts(r@) == watched_keys(context.cgroups.keys(), self.cgroup_pattern@),
    {
        matching_cgroups(self.cgroup_pattern.as_str(), context)
    }

    /// Initializes the detector from its settings: `threshold_bytes`,
    /// `threshold_percentage` and `cgroup_pattern`. A setting that is
    /// missing or of another kind leaves what the detector has. After that a
    /// threshold of zero bytes, or a share that is not above 0 % and at most
    /// 100 %, is a configuration error.
    pub fn init(&mut self, config: KeyedList<Value>) -> (r: Result<(), OomdError>)
        ensures
            old(self).configured(*final(self), config),
            final(self).usable() ==> r is Ok,
            !final(self).usable() ==> r is Err && r->Err_0 is Config,
    {
        let bytes = read_setting::<u64>(&config, "threshold_bytes");
        let percentage = read_setting::<Fixed>(&config, "threshold_percentage");
        let pattern = read_setting::<String>(&config, "cgroup_pattern");
        self.base.init(config);
        if let Some(b) = bytes {
            self.threshold_bytes = b;
        }
        if let Some(p) = percentage {
            self.threshold_percentage = Some(p);
        }
        if let Some(p) = pattern {
            self.cgroup_pattern = p;
        }
        proof {
            reveal_strlit("initialized");
            assert("initialized"@.len() == 11);
            reveal_strlit("threshold_bytes");
            reveal_strlit("threshold_percentage");
            reveal_strlit("cgroup_pattern");
            assert("threshold_bytes"@.len() == 15);
            assert("threshold_percentage"@.len() == 20);
            assert("cgroup_pattern"@.len() == 14);
        }
        if self.threshold_bytes == 0 {
            return Err(
                OomdError::Config(String::from_str("Threshold bytes must be greater than 0")),
            );
        }
        if let Some(p) = self.threshold_percentage {
            if p.hundredths <= 0 || p.hundredths > 10000 {
                return Err(
                    OomdError::Config(
                        String::from_str("Threshold percentage must be between 0.0 and 100.0"),
                    ),
                );
            }
        }
        self.base.update_status(
            String::from_str("threshold_bytes"),
            Value::Unsigned(self.threshold_bytes),
        );
        let shown = match self.threshold_percentage {
            Some(p) => Value::Hundredths(p.hundredths),
            None => Value::Null,
        };
        self.base.update_status(String::from_str("threshold_percentage"), shown);
        self.base.update_status(
            String::from_str("cgroup_pattern"),
            Value::Text(self.cgroup_pattern.clone()),
        );
        Ok(())
    }

    /// Evaluates one cgroup: tells whether its usage triggers. A cgroup
    /// that the snapshot does not hold is not found; one whose usage was not
    /// read has no data available.
    pub fn check_usage_threshold(&self, context: &OomdContext, cgroup_path: &str) -> (r: Result<
        bool,
        OomdError,
    >)
        ensures
            match context.cgroups.lookup(cgroup_path@) {
                None => r is Err && r->Err_0 is CgroupNotFound,
                Some(c) => match c.memory_usage {
                    None => r is Err && r->Err_0 is PressureUnavailable,
                    Some(usage) => r == Ok::<bool, OomdError>(
                        usage_exceeded(
                            usage,
                            c.memory_limit,
                            self.threshold_bytes,
                            self.threshold_percentage,
                        ),
                    ),
                },
            },
    {
        let c = match context.get_cgroup(cgroup_path) {
            Some(c) => c,
            None => {
                return Err(OomdError::CgroupNotFound(String::from_str(cgroup_path)));
            },
        };
        let usage = match c.memory_usage {
            Some(u) => u,
            None => {
                return Err(
                    OomdError::PressureUnavailable(String::from_str("No memory usage data")),
                );
            },
        };
        let absolute = usage >= self.threshold_bytes;
        let relative = match (self.threshold_percentage, c.memory_limit) {
            (Some(p), Some(limit)) => reaches_share(usage, limit, p),
            _ => false,
        };
        Ok(absolute || relative)
    }

    /// Runs the detector on a snapshot: evaluates every cgroup that it
    /// watches and stops the chain where any triggers. A cgroup whose usage
    /// was not read is passed over. The status tells whether the detector
    /// triggered and for which cgroups. A disabled detector lets the chain
    /// go on and changes nothing.
    pub fn run(&mut self, context: &OomdContext) -> (r: PluginRet)
        ensures
            old(self).ran(*final(self), *context, r),
    {
        if !self.base.is_enabled() {
            return PluginRet::Continue;
        }
        let n = context.cgroups.len();
        let ghost keys = context.cgroups.keys();
        let ghost values = context.cgroups.values();
        let mut triggered: Vec<String> = Vec::new();
        assert(key_texts(triggered@) =~= Seq::<Seq<char>>::empty());
        let mut i: usize = 0;
        while i < n
            invariant
                i <= n,
                n == keys.len(),
                n == values.len(),
                keys == context.cgroups.keys(),
                values == context.cgroups.values(),
                crate::keyed::distinct_keys(keys),
                *self == *old(self),
                key_texts(triggered@) == self.triggered_first(*context, i as nat),
            decreases n - i,
        {
            let key = context.cgroups.key_at(i);
            proof {
                lemma_key_position_is(keys, keys[i as int], i as int);
                assert(context.cgroups.lookup(keys[i as int]) == Some(values[i as int]));
            }
            if pattern_watches(self.cgroup_pattern.as_str(), key.as_str()) {
                match self.check_usage_threshold(context, key.as_str()) {
                    Ok(true) => {
                        let ghost shown = key_texts(triggered@);
                        triggered.push(key.clone());
                        assert(key_texts(triggered@) =~= shown.push(keys[i as int]));
                    },
                    Ok(false) => {},
                    Err(_) => {},
                }
            }
            i += 1;
        }
        proof {
            reveal_strlit("triggered");
            reveal_strlit("triggered_cgroups");
            assert("triggered"@.len() == 9);
            assert("triggered_cgroups"@.len() == 17);
        }
        if triggered.len() > 0 {
            let shown = Value::texts(&triggered);
            self.base.update_status(String::from_str("triggered_cgroups"), shown);
            self.base.update_status(String::from_str("triggered"), Value::Bool(true));
            assert(key_texts(triggered@) =~= Seq::new(
                triggered@.len(),
                |i: int| triggered@[i]@,
            ));
            return PluginRet::Stop;
        }
        self.base.update_status(String::from_str("triggered"), Value::Bool(false));
        PluginRet::Continue
    }

    /// Whether the detector's conditions are met in the snapshot.
    pub fn detect(&mut self, context: &OomdContext) -> (r: bool)
        ensures
            old(self).ran(
                *final(self),
                *context,
                if r {
                    PluginRet::Stop
                } else {
                    PluginRet::Continue
                },
            ),
    {
        match self.run(context) {
            PluginRet::Stop => true,
            PluginRet::Continue => false,
        }
    }

    /// What the detector watches for.
    pub fn get_criteria(&self) -> (r: DetectorCriteria)
        ensures
            r is MemoryUsage,
            r->threshold_bytes == self.threshold_bytes,
            r->percentage == match self.threshold_percentage {
                Some(p) => Some(p.as_threshold()),
                None => None,
            },
            r->MemoryUsage_cgroup_pattern@ == self.cgroup_pattern@,
    {
        let percentage = match self.threshold_percentage {
            Some(p) => Some(p.threshold()),
            None => None,
        };
        DetectorCriteria::MemoryUsage {
            threshold_bytes: self.threshold_bytes,
            percentage,
            cgroup_pattern: self.cgroup_pattern.clone(),
        }
    }

    /// The status of the detector: that of its base, and that it is a
    /// detector of memory usage.
    pub fn get_status(&self) -> (r: KeyedList<Value>)
        ensures
            view_under(r, "type"@) == Some(ValueView::Text("detector"@)),
            view_under(r, "detector_type"@) == Some(ValueView::Text("memory_usage"@)),
            forall|k: Seq<char>|
                k != "type"@ && k != "detector_type"@ ==> #[trigger] view_under(r, k)
                    == self.base.merged_status(k),
    {
        proof {
            reveal_strlit("type");
            reveal_strlit("detector_type");
            assert("type"@.len() == 4);
            assert("detector_type"@.len() == 13);
        }
        let mut status = self.base.get_status();
        let ghost s0 = status;
        status.insert(String::from_str("type"), Value::Text(String::from_str("detector")));
        let ghost s1 = status;
        status.insert(
            String::from_str("detector_type"),
            Value::Text(String::from_str("memory_usage")),
        );
        assert forall|k: Seq<char>| k != "type"@ && k != "detector_type"@ implies #[trigger] view_under(
            status,
            k,
        ) == self.base.merged_status(k) by {
            assert(s1.lookup(k) == s0.lookup(k));
            assert(view_under(s0, k) == self.base.merged_status(k));
        }
        status
    }
}

/// The settings of a memory usage detector as a record.
#[derive(Debug)]
pub struct MemoryUsageDetectorConfig {
    pub threshold_bytes: u64,
    pub threshold_percentage: Option<Fixed>,
    pub cgroup_pattern: String,
    pub enabled: bool,
}

impl Default for MemoryUsageDetectorConfig {
    /// 1 GiB in any cgroup, and no share.
    fn default() -> (r: MemoryUsageDetectorConfig)
        ensures
            r.threshold_bytes == 1073741824,
            r.threshold_percentage is None,
            r.cgroup_pattern@ == "*"@,
            r.enabled,
    {
        MemoryUsageDetectorConfig {
            threshold_bytes: 1073741824,
            threshold_percentage: None,
            cgroup_pattern: String::from_str("*"),
            enabled: true,
        }
    }
}

} // verus!
