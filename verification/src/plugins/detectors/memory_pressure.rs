//! The pressure detector: triggers when the weighted pressure of a cgroup
//! has been at or above a threshold for a duration.
//!
//! On each evaluation the detector adds a sample of the weighted pressure to
//! the history of the cgroup and drops the samples that are more than twice
//! the duration old. It triggers where the earliest sample left that is at
//! or above the threshold is at least the duration old.
//!
//! Times are milliseconds; ages are counted in whole seconds. The threshold
//! is in hundredths of a percent, the weighted pressure in thousandths.

use crate::cgroup::types::{CgroupContext, OomdContext};
use crate::error::OomdError;
use crate::keyed::{distinct_keys, key_texts, lemma_key_position_is, KeyedList};
use crate::model::{PluginRet, ResourcePressure};
use crate::plugins::base::{read_setting, setting_of, BasePlugin};
use crate::plugins::interface::DetectorCriteria;
use crate::plugins::value::{view_under, Fixed, Value, ValueView};
use crate::text::{chars_of, contains, has_substring, is_word};
use vstd::prelude::*;

verus! {

/// Which pressure a detector reads.
#[derive(Debug, Clone, Copy, PartialEq, Eq, Structural)]
pub enum PressureKind {
    Memory,
    Io,
}

/// One sample of the weighted pressure of a cgroup.
#[derive(Debug, Clone, Copy, PartialEq, Eq, Structural)]
pub struct Sample {
    pub timestamp: u64,
    pub weighted: u32,
}

/// The age of a sample in whole seconds; none where the clock reads less
/// than the sample's time.
pub open spec fn age_seconds(now: u64, timestamp: u64) -> int {
    if now >= timestamp {
        (now - timestamp) / 1000
    } else {
        0
    }
}

/// Whether a sample is kept: it is at most twice the duration old.
pub open spec fn kept(s: Sample, now: u64, duration_seconds: u64) -> bool {
    age_seconds(now, s.timestamp) <= 2 * duration_seconds
}

/// The samples that are kept, in order.
pub open spec fn retained(history: Seq<Sample>, now: u64, duration_seconds: u64) -> Seq<Sample>
    decreases history.len(),
{
    if history.len() == 0 {
        Seq::empty()
    } else if kept(history.last(), now, duration_seconds) {
        retained(history.drop_last(), now, duration_seconds).push(history.last())
    } else {
        retained(history.drop_last(), now, duration_seconds)
    }
}

/// Whether a sample is at or above the threshold.
pub open spec fn exceeds(s: Sample, threshold: Fixed) -> bool {
    s.weighted >= 10 * threshold.hundredths
}

/// The time of the earliest sample at or above the threshold.
pub open spec fn exceeding_since(history: Seq<Sample>, threshold: Fixed) -> Option<u64>
    decreases history.len(),
{
    if history.len() == 0 {
        None
    } else {
        let rest = exceeding_since(history.drop_last(), threshold);
        if exceeds(history.last(), threshold) {
            match rest {
                Some(t) => if t <= history.last().timestamp {
                    Some(t)
                } else {
                    Some(history.last().timestamp)
                },
                None => Some(history.last().timestamp),
            }
        } else {
            rest
        }
    }
}

/// Whether a history triggers at `now`: its earliest sample at or above the
/// threshold is at least the duration old.
pub open spec fn gate(history: Seq<Sample>, now: u64, threshold: Fixed, duration_seconds: u64) -> bool {
    match exceeding_since(history, threshold) {
        Some(start) => age_seconds(now, start) >= duration_seconds,
        None => false,
    }
}

/// The history after a sample was taken at `now`: the sample added, and the
/// samples dropped that are no longer kept.
pub open spec fn sampled(history: Seq<Sample>, now: u64, weighted: u32, duration_seconds: u64) -> Seq<
    Sample,
> {
    retained(history.push(Sample { timestamp: now, weighted }), now, duration_seconds)
}

/// The earliest time among the samples.
pub open spec fn earliest(history: Seq<Sample>) -> Option<u64>
    decreases history.len(),
{
    if history.len() == 0 {
        None
    } else {
        match earliest(history.drop_last()) {
            Some(t) => if t <= history.last().timestamp {
                Some(t)
            } else {
                Some(history.last().timestamp)
            },
            None => Some(history.last().timestamp),
        }
    }
}

/// Under a constant pressure, the earliest sample at or above the threshold
/// is the earliest sample where the pressure is at or above the threshold,
/// and there is none where it is below.
pub proof fn lemma_constant_pressure(history: Seq<Sample>, weighted: u32, threshold: Fixed)
    requires
        forall|i: int| 0 <= i < history.len() ==> (#[trigger] history[i]).weighted == weighted,
    ensures
        weighted >= 10 * threshold.hundredths ==> exceeding_since(history, threshold) == earliest(
            history,
        ),
        weighted < 10 * threshold.hundredths ==> exceeding_since(history, threshold) is None,
    decreases history.len(),
{
    if history.len() > 0 {
        let rest = history.drop_last();
        assert forall|i: int| 0 <= i < rest.len() implies (#[trigger] rest[i]).weighted
            == weighted by {
            assert(rest[i] == history[i]);
        }
        lemma_constant_pressure(rest, weighted, threshold);
        assert(history.last() == history[history.len() - 1]);
    }
}

/// Under a constant weighted pressure the detector triggers if and only if
/// the pressure is at or above the threshold and the earliest sample that it
/// still keeps is at least the duration old.
pub proof fn lemma_duration_gate(
    history: Seq<Sample>,
    weighted: u32,
    threshold: Fixed,
    now: u64,
    duration_seconds: u64,
)
    requires
        forall|i: int| 0 <= i < history.len() ==> (#[trigger] history[i]).weighted == weighted,
    ensures
        gate(history, now, threshold, duration_seconds) <==> weighted >= 10 * threshold.hundredths
            && earliest(history) is Some && age_seconds(now, earliest(history)->0)
            >= duration_seconds,
{
    lemma_constant_pressure(history, weighted, threshold);
}

/// The history of a cgroup; empty where none is kept.
pub open spec fn history_of(histories: KeyedList<Vec<Sample>>, key: Seq<char>) -> Seq<Sample> {
    match histories.lookup(key) {
        Some(v) => v@,
        None => Seq::empty(),
    }
}

/// Whether a detector with the pattern `pattern` watches the cgroup at
/// `key`: the pattern `*` watches all, any other pattern those whose key
/// holds it.
pub open spec fn watches(pattern: Seq<char>, key: Seq<char>) -> bool {
    pattern == "*"@ || contains(key, pattern)
}

/// Those of the keys that the pattern watches, in order.
pub open spec fn watched_keys(keys: Seq<Seq<char>>, pattern: Seq<char>) -> Seq<Seq<char>>
    decreases keys.len(),
{
    if keys.len() == 0 {
        Seq::empty()
    } else if watches(pattern, keys.last()) {
        watched_keys(keys.drop_last(), pattern).push(keys.last())
    } else {
        watched_keys(keys.drop_last(), pattern)
    }
}

/// Whether the pattern watches the cgroup at `key`.
pub fn pattern_watches(pattern: &str, key: &str) -> (r: bool)
    ensures
        r == watches(pattern@, key@),
{
    let p = chars_of(pattern);
    if is_word(&p, "*") {
        return true;
    }
    has_substring(&chars_of(key), &p)
}

/// The keys of the snapshot that the pattern watches.
pub fn matching_cgroups(pattern: &str, context: &OomdContext) -> (r: Vec<String>)
    ensures
        key_texts(r@) == watched_keys(context.cgroups.keys(), pattern@),
{
    let n = context.cgroups.len();
    let ghost keys = context.cgroups.keys();
    let mut out: Vec<String> = Vec::new();
    let mut i: usize = 0;
    assert(keys.take(0) =~= Seq::<Seq<char>>::empty());
    assert(key_texts(out@) =~= Seq::<Seq<char>>::empty());
    while i < n
        invariant
            i <= n,
            n == keys.len(),
            keys == context.cgroups.keys(),
            key_texts(out@) == watched_keys(keys.take(i as int), pattern@),
        decreases n - i,
    {
        proof {
            assert(keys.take(i + 1).drop_last() =~= keys.take(i as int));
            assert(keys.take(i + 1).last() == keys[i as int]);
        }
        let key = context.cgroups.key_at(i);
        if pattern_watches(pattern, key.as_str()) {
            let ghost before = key_texts(out@);
            out.push(key.clone());
            assert(key_texts(out@) =~= before.push(keys[i as int]));
        }
        i += 1;
    }
    assert(keys.take(n as int) =~= keys);
    out
}

/// The age of a sample in whole seconds.
pub fn age_of(now: u64, timestamp: u64) -> (r: u64)
    ensures
        r == age_seconds(now, timestamp),
{
    if now >= timestamp {
        (now - timestamp) / 1000
    } else {
        0
    }
}

/// Drops the samples that are no longer kept.
pub fn retain_recent(history: &Vec<Sample>, now: u64, duration_seconds: u64) -> (r: Vec<Sample>)
    ensures
        r@ == retained(history@, now, duration_seconds),
{
    let mut out: Vec<Sample> = Vec::new();
    let mut i: usize = 0;
    assert(history@.take(0) =~= Seq::<Sample>::empty());
    while i < history.len()
        invariant
            i <= history.len(),
            out@ == retained(history@.take(i as int), now, duration_seconds),
        decreases history.len() - i,
    {
        proof {
            assert(history@.take(i + 1).drop_last() =~= history@.take(i as int));
            assert(history@.take(i + 1).last() == history@[i as int]);
        }
        let s = history[i];
        if (age_of(now, s.timestamp) as u128) <= 2 * (duration_seconds as u128) {
            out.push(s);
        }
        i += 1;
    }
    assert(history@.take(history.len() as int) =~= history@);
    out
}

/// The time of the earliest sample at or above the threshold.
pub fn find_exceeding_since(history: &Vec<Sample>, threshold: Fixed) -> (r: Option<u64>)
    ensures
        r == exceeding_since(history@, threshold),
{
    let mut r: Option<u64> = None;
    let mut i: usize = 0;
    assert(history@.take(0) =~= Seq::<Sample>::empty());
    while i < history.len()
        invariant
            i <= history.len(),
            r == exceeding_since(history@.take(i as int), threshold),
        decreases history.len() - i,
    {
        proof {
            assert(history@.take(i + 1).drop_last() =~= history@.take(i as int));
            assert(history@.take(i + 1).last() == history@[i as int]);
        }
        let s = history[i];
        if (s.weighted as i128) >= 10 * (threshold.hundredths as i128) {
            r = match r {
                Some(t) => if t <= s.timestamp {
                    Some(t)
                } else {
                    Some(s.timestamp)
                },
                None => Some(s.timestamp),
            };
        }
        i += 1;
    }
    assert(history@.take(history.len() as int) =~= history@);
    r
}

/// Whether a history triggers at `now`.
pub fn evaluate_gate(history: &Vec<Sample>, now: u64, threshold: Fixed, duration_seconds: u64) -> (r:
    bool)
    ensures
        r == gate(history@, now, threshold, duration_seconds),
{
    match find_exceeding_since(history, threshold) {
        Some(start) => age_of(now, start) >= duration_seconds,
        None => false,
    }
}

/// The detector of memory pressure or, made by `new_io`, of I/O pressure.
#[derive(Debug)]
pub struct MemoryPressureDetector {
    pub base: BasePlugin,
    pub kind: PressureKind,
    pub threshold: Fixed,
    pub duration_seconds: u64,
    pub cgroup_pattern: String,
    pub pressure_history: KeyedList<Vec<Sample>>,
}

/// The pressure of an observation that a detector of the kind reads.
pub open spec fn pressure_read(kind: PressureKind, c: CgroupContext) -> Option<ResourcePressure> {
    match kind {
        PressureKind::Memory => c.memory_pressure,
        PressureKind::Io => c.io_pressure,
    }
}

/// Whether a threshold can be used: above 0 % and at most 100 %.
pub open spec fn valid_threshold(threshold: Fixed) -> bool {
    0 < threshold.hundredths <= 10000
}

impl MemoryPressureDetector {
    /// Whether `after` differs from `self` in the histories and the status
    /// at most.
    pub open spec fn same_settings(self, after: MemoryPressureDetector) -> bool {
        self.base.same_but_status(after.base) && after.kind == self.kind && after.threshold
            == self.threshold && after.duration_seconds == self.duration_seconds
            && after.cgroup_pattern == self.cgroup_pattern
    }

    /// The history of the cgroup at `key` after an evaluation at `now` that
    /// read the pressure `pressure`.
    pub open spec fn history_after(self, key: Seq<char>, now: u64, pressure: ResourcePressure) -> Seq<
        Sample,
    > {
        sampled(
            history_of(self.pressure_history, key),
            now,
            pressure.weighted_value() as u32,
            self.duration_seconds,
        )
    }

    /// Whether the cgroup at index `i` of the snapshot triggers the
    /// detector at `now`: the detector watches it, its pressure was read, and
    /// its history with the new sample triggers.
    pub open spec fn triggers(self, context: OomdContext, i: int, now: u64) -> bool {
        let key = context.cgroups.keys()[i];
        let c = context.cgroups.values()[i];
        watches(self.cgroup_pattern@, key) && pressure_read(self.kind, c) is Some && gate(
            self.history_after(key, now, pressure_read(self.kind, c)->0),
            now,
            self.threshold,
            self.duration_seconds,
        )
    }

    /// The keys of the first `n` cgroups of the snapshot that trigger the
    /// detector, in order.
    pub open spec fn triggered_first(self, context: OomdContext, now: u64, n: nat) -> Seq<
        Seq<char>,
    >
        decreases n,
    {
        if n == 0 {
            Seq::empty()
        } else if self.triggers(context, n - 1, now) {
            self.triggered_first(context, now, (n - 1) as nat).push(context.cgroups.keys()[n - 1])
        } else {
            self.triggered_first(context, now, (n - 1) as nat)
        }
    }

    /// The keys of the cgroups of the snapshot that trigger the detector.
    pub open spec fn triggered(self, context: OomdContext, now: u64) -> Seq<Seq<char>> {
        self.triggered_first(context, now, context.cgroups.keys().len())
    }

    /// Whether the settings can be used: a threshold above 0 % and at most
    /// 100 %, and a duration of at least a second.
    pub open spec fn usable(self) -> bool {
        valid_threshold(self.threshold) && self.duration_seconds != 0
    }

    /// Whether `after` is `self` with the settings `config` taken: each
    /// setting that `config` gives in its kind is taken, the others stay;
    /// the status says that the plugin is initialized and, where the
    /// settings can be used, tells the three settings. Nothing else changes.
    pub open spec fn configured(
        self,
        after: MemoryPressureDetector,
        config: KeyedList<Value>,
    ) -> bool {
        &&& after.threshold == match setting_of::<Fixed>(config, "threshold"@) {
            Some(t) => t,
            None => self.threshold,
        }
        &&& after.duration_seconds == match setting_of::<u64>(config, "duration_seconds"@) {
            Some(d) => d,
            None => self.duration_seconds,
        }
        &&& after.cgroup_pattern == match setting_of::<String>(config, "cgroup_pattern"@) {
            Some(p) => p,
            None => self.cgroup_pattern,
        }
        &&& after.kind == self.kind
        &&& after.pressure_history == self.pressure_history
        &&& after.base.config == config
        &&& self.base.same_but_settings(after.base)
        &&& view_under(after.base.status, "initialized"@) == Some(ValueView::Bool(true))
        &&& after.usable() ==> view_under(after.base.status, "threshold"@) == Some(
            ValueView::Hundredths(after.threshold.hundredths),
        ) && view_under(after.base.status, "duration_seconds"@) == Some(
            ValueView::Unsigned(after.duration_seconds),
        ) && view_under(after.base.status, "cgroup_pattern"@) == Some(
            ValueView::Text(after.cgroup_pattern@),
        )
        &&& forall|k: Seq<char>|
            k != "initialized"@ && (!after.usable() || (k != "threshold"@ && k
                != "duration_seconds"@ && k != "cgroup_pattern"@))
                ==> #[trigger] after.base.status.lookup(k) == self.base.status.lookup(k)
    }

    /// Whether `after` is `self` after a run on the snapshot at `now` that
    /// returned `r`. The run stops the chain exactly where a cgroup triggers;
    /// the status tells whether it did and for which cgroups; every watched
    /// cgroup whose pressure was read has the new sample in its history; and
    /// nothing else changes. A disabled detector lets the chain go on and
    /// changes nothing.
    pub open spec fn ran(
        self,
        after: MemoryPressureDetector,
        context: OomdContext,
        now: u64,
        r: PluginRet,
    ) -> bool {
        &&& self.same_settings(after)
        &&& !self.base.enabled ==> r == PluginRet::Continue && after == self
        &&& self.base.enabled ==> (r == PluginRet::Stop <==> self.triggered(context, now).len()
            > 0)
        &&& self.base.enabled ==> view_under(after.base.status, "triggered"@) == Some(
            ValueView::Bool(r == PluginRet::Stop),
        )
        &&& self.base.enabled && r == PluginRet::Stop ==> view_under(
            after.base.status,
            "triggered_cgroups"@,
        ) == Some(ValueView::Texts(self.triggered(context, now)))
        &&& self.base.enabled && r != PluginRet::Stop ==> after.base.status.lookup(
            "triggered_cgroups"@,
        ) == self.base.status.lookup("triggered_cgroups"@)
        &&& forall|k: Seq<char>|
            k != "triggered"@ && k != "triggered_cgroups"@ ==> #[trigger] after.base.status.lookup(
                k,
            ) == self.base.status.lookup(k)
        &&& self.base.enabled ==> forall|i: int|
            0 <= i < context.cgroups.keys().len() ==> history_of(
                after.pressure_history,
                #[trigger] context.cgroups.keys()[i],
            ) == if watches(self.cgroup_pattern@, context.cgroups.keys()[i]) && pressure_read(
                self.kind,
                context.cgroups.values()[i],
            ) is Some {
                self.history_after(
                    context.cgroups.keys()[i],
                    now,
                    pressure_read(self.kind, context.cgroups.values()[i])->0,
                )
            } else {
                history_of(self.pressure_history, context.cgroups.keys()[i])
            }
        &&& forall|k: Seq<char>|
            !context.cgroups.has(k) ==> #[trigger] after.pressure_history.lookup(k)
                == self.pressure_history.lookup(k)
    }

    /// A detector of memory pressure at or above 80 % for 30 seconds in any
    /// cgroup.
    pub fn new() -> (r: MemoryPressureDetector)
        ensures
            r.base.name@ == "memory_pressure_detector"@,
            r.base.enabled,
            r.kind == PressureKind::Memory,
            r.threshold == (Fixed { hundredths: 8000 }),
            r.duration_seconds == 30,
            r.cgroup_pattern@ == "*"@,
            r.pressure_history.keys() == Seq::<Seq<char>>::empty(),
    {
        MemoryPressureDetector {
            base: BasePlugin::new(
                "memory_pressure_detector",
                "1.0.0",
                "Detects when memory pressure exceeds threshold",
            ),
            kind: PressureKind::Memory,
            threshold: Fixed { hundredths: 8000 },
            duration_seconds: 30,
            cgroup_pattern: String::from_str("*"),
            pressure_history: KeyedList::new(),
        }
    }

    /// A detector of I/O pressure at or above 80 % for 30 seconds in any
    /// cgroup.
    pub fn new_io() -> (r: MemoryPressureDetector)
        ensures
            r.base.name@ == "io_pressure_detector"@,
            r.base.enabled,
            r.kind == PressureKind::Io,
            r.threshold == (Fixed { hundredths: 8000 }),
            r.duration_seconds == 30,
            r.cgroup_pattern@ == "*"@,
            r.pressure_history.keys() == Seq::<Seq<char>>::empty(),
    {
        MemoryPressureDetector {
            base: BasePlugin::new(
                "io_pressure_detector",
                "1.0.0",
                "Detects when IO pressure exceeds threshold",
            ),
            kind: PressureKind::Io,
            threshold: Fixed { hundredths: 8000 },
            duration_seconds: 30,
            cgroup_pattern: String::from_str("*"),
            pressure_history: KeyedList::new(),
        }
    }

    /// The same detector with another threshold, in hundredths of a percent.
    pub fn with_threshold(self, threshold: Fixed) -> (r: MemoryPressureDetector)
        ensures
            r.threshold == threshold,
            r.base == self.base,
            r.kind == self.kind,
            r.duration_seconds == self.duration_seconds,
            r.cgroup_pattern == self.cgroup_pattern,
            r.pressure_history == self.pressure_history,
    {
        let mut r = self;
        r.threshold = threshold;
        r
    }

    /// The same detector with another duration.
    pub fn with_duration(self, duration_seconds: u64) -> (r: MemoryPressureDetector)
        ensures
            r.duration_seconds == duration_seconds,
            r.base == self.base,
            r.kind == self.kind,
            r.threshold == self.threshold,
            r.cgroup_pattern == self.cgroup_pattern,
            r.pressure_history == self.pressure_history,
    {
        let mut r = self;
        r.duration_seconds = duration_seconds;
        r
    }

    /// The same detector with another pattern.
    pub fn with_cgroup_pattern(self, pattern: String) -> (r: MemoryPressureDetector)
        ensures
            r.cgroup_pattern == pattern,
            r.base == self.base,
            r.kind == self.kind,
            r.threshold == self.threshold,
            r.duration_seconds == self.duration_seconds,
            r.pressure_history == self.pressure_history,
    {
        let mut r = self;
        r.cgroup_pattern = pattern;
        r
    }

    /// The keys of the snapshot that the detector watches.
    pub fn find_matching_cgroups(&self, context: &OomdContext) -> (r: Vec<String>)
        ensures
            key_texts(r@) == watched_keys(context.cgroups.keys(), self.cgroup_pattern@),
    {
        matching_cgroups(self.cgroup_pattern.as_str(), context)
    }

    /// Initializes the detector from its settings: `threshold`,
    /// `duration_seconds` and `cgroup_pattern`. A setting that is missing or
    /// of another kind leaves what the detector has. After that a threshold
    /// that is not above 0 % and at most 100 %, or a duration of zero, is a
    /// configuration error.
    pub fn init(&mut self, config: KeyedList<Value>) -> (r: Result<(), OomdError>)
        ensures
            old(self).configured(*final(self), config),
            final(self).usable() ==> r is Ok,
            !final(self).usable() ==> r is Err && r->Err_0 is Config,
    {
        let threshold = read_setting::<Fixed>(&config, "threshold");
        let duration = read_setting::<u64>(&config, "duration_seconds");
        let pattern = read_setting::<String>(&config, "cgroup_pattern");
        self.base.init(config);
        if let Some(t) = threshold {
            self.threshold = t;
        }
        if let Some(d) = duration {
            self.duration_seconds = d;
        }
        if let Some(p) = pattern {
            self.cgroup_pattern = p;
        }
        proof {
            reveal_strlit("initialized");
            reveal_strlit("threshold");
            reveal_strlit("duration_seconds");
            reveal_strlit("cgroup_pattern");
            assert("initialized"@.len() == 11);
            assert("threshold"@.len() == 9);
            assert("duration_seconds"@.len() == 16);
            assert("cgroup_pattern"@.len() == 14);
        }
        if self.threshold.hundredths <= 0 || self.threshold.hundredths > 10000 {
            return Err(
                OomdError::Config(String::from_str("Threshold must be between 0.0 and 100.0")),
            );
        }
        if self.duration_seconds == 0 {
            return Err(OomdError::Config(String::from_str("Duration must be at least 1 second")));
        }
        self.base.update_status(
            String::from_str("threshold"),
            Value::Hundredths(self.threshold.hundredths),
        );
        self.base.update_status(
            String::from_str("duration_seconds"),
            Value::Unsigned(self.duration_seconds),
        );
        self.base.update_status(
            String::from_str("cgroup_pattern"),
            Value::Text(self.cgroup_pattern.clone()),
        );
        Ok(())
    }

    /// Evaluates one cgroup at `now`: adds a sample of its weighted pressure
    /// to its history, drops the samples that are no longer kept, and tells
    /// whether the history triggers. A cgroup that the snapshot does not hold
    /// is not found; one whose pressure was not read has no pressure
    /// available; in both cases the histories stay as they are.
    pub fn check_pressure_threshold(&mut self, context: &OomdContext, cgroup_path: &str, now: u64) -> (r:
        Result<bool, OomdError>)
        ensures
            old(self).same_settings(*final(self)),
            final(self).base == old(self).base,
            forall|k: Seq<char>|
                k != cgroup_path@ ==> #[trigger] final(self).pressure_history.lookup(k)
                    == old(self).pressure_history.lookup(k),
            match context.cgroups.lookup(cgroup_path@) {
                None => r is Err && r->Err_0 is CgroupNotFound && final(self).pressure_history
                    == old(self).pressure_history,
                Some(c) => match pressure_read(old(self).kind, c) {
                    None => r is Err && r->Err_0 is PressureUnavailable
                        && final(self).pressure_history == old(self).pressure_history,
                    Some(p) => r is Ok && history_of(final(self).pressure_history, cgroup_path@)
                        == old(self).history_after(cgroup_path@, now, p) && r->Ok_0 == gate(
                        old(self).history_after(cgroup_path@, now, p),
                        now,
                        old(self).threshold,
                        old(self).duration_seconds,
                    ),
                },
            },
    {
        let c = match context.get_cgroup(cgroup_path) {
            Some(c) => c,
            None => {
                return Err(OomdError::CgroupNotFound(String::from_str(cgroup_path)));
            },
        };
        let read = match self.kind {
            PressureKind::Memory => &c.memory_pressure,
            PressureKind::Io => &c.io_pressure,
        };
        let pressure = match read {
            Some(p) => p,
            None => {
                return Err(
                    OomdError::PressureUnavailable(String::from_str("No pressure data")),
                );
            },
        };
        let weighted = pressure.weighted();
        let mut history = match self.pressure_history.remove(cgroup_path) {
            Some(h) => h,
            None => Vec::new(),
        };
        history.push(Sample { timestamp: now, weighted });
        let kept_samples = retain_recent(&history, now, self.duration_seconds);
        let r = evaluate_gate(&kept_samples, now, self.threshold, self.duration_seconds);
        self.pressure_history.insert(String::from_str(cgroup_path), kept_samples);
        Ok(r)
    }

    /// Runs the detector on a snapshot at `now`: evaluates every cgroup
    /// that it watches and stops the chain where any triggers. A cgroup
    /// whose pressure was not read is passed over. The status tells whether
    /// the detector triggered and for which cgroups. A disabled detector
    /// lets the chain go on and changes nothing.
    pub fn run(&mut self, context: &OomdContext, now: u64) -> (r: PluginRet)
        ensures
            old(self).ran(*final(self), *context, now, r),
    {
        if !self.base.is_enabled() {
            return PluginRet::Continue;
        }
        let n = context.cgroups.len();
        let ghost keys = context.cgroups.keys();
        let ghost values = context.cgroups.values();
        let ghost start = *self;
        let mut triggered: Vec<String> = Vec::new();
        assert(key_texts(triggered@) =~= Seq::<Seq<char>>::empty());
        let mut i: usize = 0;
        while i < n
            invariant
                i <= n,
                n == keys.len(),
                n == values.len(),
                keys == context.cgroups.keys(),
                values == context.cgroups.values(),
                distinct_keys(keys),
                start.same_settings(*self),
                self.base == start.base,
                key_texts(triggered@) == start.triggered_first(*context, now, i as nat),
                forall|k: Seq<char>|
                    !context.cgroups.has(k) ==> #[trigger] self.pressure_history.lookup(k)
                        == start.pressure_history.lookup(k),
                forall|j: int|
                    i <= j < n ==> history_of(self.pressure_history, #[trigger] keys[j])
                        == history_of(start.pressure_history, keys[j]),
                forall|j: int|
                    0 <= j < i ==> history_of(self.pressure_history, #[trigger] keys[j]) == if watches(
                        start.cgroup_pattern@,
                        keys[j],
                    ) && pressure_read(start.kind, values[j]) is Some {
                        start.history_after(keys[j], now, pressure_read(start.kind, values[j])->0)
                    } else {
                        history_of(start.pressure_history, keys[j])
                    },
            decreases n - i,
        {
            let key = context.cgroups.key_at(i);
            let ghost before = *self;
            proof {
                lemma_key_position_is(keys, keys[i as int], i as int);
                assert(context.cgroups.lookup(keys[i as int]) == Some(values[i as int]));
            }
            if pattern_watches(self.cgroup_pattern.as_str(), key.as_str()) {
                match self.check_pressure_threshold(context, key.as_str(), now) {
                    Ok(true) => {
                        let ghost shown = key_texts(triggered@);
                        triggered.push(key.clone());
                        assert(key_texts(triggered@) =~= shown.push(keys[i as int]));
                    },
                    Ok(false) => {},
                    Err(_) => {},
                }
                proof {
                    assert forall|j: int| 0 <= j < n && j != i implies history_of(
                        self.pressure_history,
                        #[trigger] keys[j],
                    ) == history_of(before.pressure_history, keys[j]) by {
                        assert(keys[j] != keys[i as int]);
                        assert(self.pressure_history.lookup(keys[j])
                            == before.pressure_history.lookup(keys[j]));
                    }
                }
            }
            i += 1;
        }
        proof {
            reveal_strlit("triggered");
            reveal_strlit("triggered_cgroups");
            assert("triggered"@.len() == 9);
            assert("triggered_cgroups"@.len() == 17);
        }
        if triggered.len() > 0 {
            let shown = Value::texts(&triggered);
            self.base.update_status(String::from_str("triggered_cgroups"), shown);
            self.base.update_status(String::from_str("triggered"), Value::Bool(true));
            assert(key_texts(triggered@) =~= Seq::new(
                triggered@.len(),
                |i: int| triggered@[i]@,
            ));
            return PluginRet::Stop;
        }
        self.base.update_status(String::from_str("triggered"), Value::Bool(false));
        PluginRet::Continue
    }

    /// Whether the detector's conditions are met in the snapshot at `now`.
    pub fn detect(&mut self, context: &OomdContext, now: u64) -> (r: bool)
        ensures
            old(self).ran(
                *final(self),
                *context,
                now,
                if r {
                    PluginRet::Stop
                } else {
                    PluginRet::Continue
                },
            ),
    {
        match self.run(context, now) {
            PluginRet::Stop => true,
            PluginRet::Continue => false,
        }
    }

    /// What the detector watches for.
    pub fn get_criteria(&self) -> (r: DetectorCriteria)
        ensures
            self.kind == PressureKind::Memory ==> r is MemoryPressure && r->MemoryPressure_threshold
                == self.threshold.as_threshold() && r->MemoryPressure_duration_seconds
                == self.duration_seconds && r->MemoryPressure_cgroup_pattern@
                == self.cgroup_pattern@,
            self.kind == PressureKind::Io ==> r is IOPressure && r->IOPressure_threshold
                == self.threshold.as_threshold() && r->IOPressure_duration_seconds
                == self.duration_seconds && r->IOPressure_cgroup_pattern@ == self.cgroup_pattern@,
    {
        let threshold: u32 = self.threshold.threshold();
        match self.kind {
            PressureKind::Memory => DetectorCriteria::MemoryPressure {
                threshold,
                duration_seconds: self.duration_seconds,
                cgroup_pattern: self.cgroup_pattern.clone(),
            },
            PressureKind::Io => DetectorCriteria::IOPressure {
                threshold,
                duration_seconds: self.duration_seconds,
                cgroup_pattern: self.cgroup_pattern.clone(),
            },
        }
    }

    /// The status of the detector: that of its base, and that it is a
    /// detector of its kind.
    pub fn get_status(&self) -> (r: KeyedList<Value>)
        ensures
            view_under(r, "type"@) == Some(ValueView::Text("detector"@)),
            view_under(r, "detector_type"@) == Some(
                ValueView::Text(
                    if self.kind == PressureKind::Memory {
                        "memory_pressure"@
                    } else {
                        "io_pressure"@
                    },
                ),
            ),
            forall|k: Seq<char>|
                k != "type"@ && k != "detector_type"@ ==> #[trigger] view_under(r, k)
                    == self.base.merged_status(k),
    {
        proof {
            reveal_strlit("type");
            reveal_strlit("detector_type");
            assert("type"@.len() == 4);
            assert("detector_type"@.len() == 13);
        }
        let mut status = self.base.get_status();
        let ghost s0 = status;
        status.insert(String::from_str("type"), Value::Text(String::from_str("detector")));
        let ghost s1 = status;
        let kind = match self.kind {
            PressureKind::Memory => "memory_pressure",
            PressureKind::Io => "io_pressure",
        };
        status.insert(String::from_str("detector_type"), Value::Text(String::from_str(kind)));
        assert forall|k: Seq<char>| k != "type"@ && k != "detector_type"@ implies #[trigger] view_under(
            status,
            k,
        ) == self.base.merged_status(k) by {
            assert(s1.lookup(k) == s0.lookup(k));
            assert(view_under(s0, k) == self.base.merged_status(k));
        }
        status
    }
}

/// The settings of a pressure detector as a record.
#[derive(Debug)]
pub struct MemoryPressureDetectorConfig {
    pub threshold: Fixed,
    pub duration_seconds: u64,
    pub cgroup_pattern: String,
    pub enabled: bool,
}

impl Default for MemoryPressureDetectorConfig {
    /// 80 % for 30 seconds in any cgroup.
    fn default() -> (r: MemoryPressureDetectorConfig)
        ensures
            r.threshold == (Fixed { hundredths: 8000 }),
            r.duration_seconds == 30,
            r.cgroup_pattern@ == "*"@,
            r.enabled,
    {
        MemoryPressureDetectorConfig {
            threshold: Fixed { hundredths: 8000 },
            duration_seconds: 30,
            cgroup_pattern: String::from_str("*"),
            enabled: true,
        }
    }
}

} // verus!
