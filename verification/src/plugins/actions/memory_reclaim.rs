//! The memory reclaim action: asks the kernel to free memory, system-wide
//! by dropping the page cache or from chosen cgroups.
//!
//! The caller writes the files and sleeps; what is here chooses the cgroups,
//! works out the amounts, says what is to be written where, and keeps the
//! books. Percentages are in hundredths of a percent.

use crate::cgroup::manager::CgroupManager;
use crate::cgroup::table::capped;
use crate::cgroup::types::{join_path, relative_below, CgroupContext, OomdContext};
use crate::error::OomdError;
use crate::keyed::{key_texts, KeyedList};
use crate::model::PluginRet;
use crate::number::{decimal_text, write_str, write_u64};
use crate::plugins::base::{read_setting, setting_of, BasePlugin};
use crate::plugins::interface::ActionResult;
use crate::plugins::value::{view_under, Fixed, Value, ValueView};
use crate::sorting::{lemma_stable_sorted, sort_by_ranks, stable_sorted};
use crate::text::{chars_of, is_word, string_of, trim, trimmed};
use vstd::prelude::*;

verus! {

/// Where memory is reclaimed from.
#[derive(Debug)]
pub enum ReclaimStrategy {
    /// From the page cache of the whole system.
    DropCache,
    /// From one cgroup.
    CgroupTarget { cgroup_path: String, percentage: Fixed },
    /// From every cgroup of the snapshot.
    AllCgroups { percentage: Fixed },
    /// From the cgroups that use the most memory.
    HighestUsage { percentage: Fixed, cgroup_count: usize },
}

/// What a `ReclaimStrategy` holds, with the path as its text.
pub enum ReclaimView {
    DropCache,
    CgroupTarget { cgroup_path: Seq<char>, percentage: Fixed },
    AllCgroups { percentage: Fixed },
    HighestUsage { percentage: Fixed, cgroup_count: usize },
}

impl View for ReclaimStrategy {
    type V = ReclaimView;

    open spec fn view(&self) -> ReclaimView {
        match *self {
            ReclaimStrategy::DropCache => ReclaimView::DropCache,
            ReclaimStrategy::CgroupTarget { cgroup_path, percentage } => ReclaimView::CgroupTarget {
                cgroup_path: cgroup_path@,
                percentage,
            },
            ReclaimStrategy::AllCgroups { percentage } => ReclaimView::AllCgroups { percentage },
            ReclaimStrategy::HighestUsage { percentage, cgroup_count } => ReclaimView::HighestUsage {
                percentage,
                cgroup_count,
            },
        }
    }
}

impl Default for ReclaimStrategy {
    fn default() -> (r: ReclaimStrategy)
        ensures
            r is DropCache,
    {
        ReclaimStrategy::DropCache
    }
}

/// The share `percentage` of `bytes`, rounded down: nothing for a share of
/// zero or less, at most the largest `u64`.
pub open spec fn share_of(bytes: u64, percentage: Fixed) -> u64 {
    if percentage.hundredths <= 0 {
        0
    } else {
        capped((bytes * percentage.hundredths / 10000) as nat)
    }
}

/// The share `percentage` of `bytes`.
pub fn share(bytes: u64, percentage: Fixed) -> (r: u64)
    ensures
        r == share_of(bytes, percentage),
{
    if percentage.hundredths <= 0 {
        return 0;
    }
    let b: u128 = bytes as u128;
    let h: u128 = percentage.hundredths as u128;
    assert(b * h <= 0xffff_ffff_ffff_ffff * 0x7fff_ffff_ffff_ffff) by (nonlinear_arith)
        requires
            b <= 0xffff_ffff_ffff_ffff,
            h <= 0x7fff_ffff_ffff_ffff,
    ;
    let q: u128 = b * h / 10000;
    if q > u64::MAX as u128 {
        u64::MAX
    } else {
        q as u64
    }
}

/// The rank of the cgroup at an index by its memory usage: the more it uses
/// the smaller the rank.
pub open spec fn usage_rank(cs: Seq<CgroupContext>) -> spec_fn(usize) -> int {
    |i: usize|
        if i < cs.len() {
            match cs[i as int].memory_usage {
                Some(u) => -(u as int),
                None => 0,
            }
        } else {
            0
        }
}

/// The indices of the observations whose memory usage was read, in order.
pub open spec fn with_usage(cs: Seq<CgroupContext>) -> Seq<usize>
    decreases cs.len(),
{
    if cs.len() == 0 {
        Seq::empty()
    } else if cs.last().memory_usage is Some {
        with_usage(cs.drop_last()).push((cs.len() - 1) as usize)
    } else {
        with_usage(cs.drop_last())
    }
}

/// The indices of the cgroups that use the most memory: those whose usage
/// was read, the largest usage first, cgroups of equal usage in the order of
/// the snapshot, and at most `count` of them.
pub open spec fn highest_order(cs: Seq<CgroupContext>, count: usize) -> Seq<usize> {
    let sorted = stable_sorted(with_usage(cs), usage_rank(cs));
    if count < sorted.len() {
        sorted.take(count as int)
    } else {
        sorted
    }
}

/// The keys of the cgroups that use the most memory.
pub open spec fn highest_usage(context: OomdContext, count: usize) -> Seq<Seq<char>> {
    let order = highest_order(context.cgroups.values(), count);
    Seq::new(order.len(), |k: int| context.cgroups.keys()[order[k] as int])
}

/// The indices of the observations with a usage are indices of the
/// observations.
pub proof fn lemma_with_usage(cs: Seq<CgroupContext>)
    ensures
        with_usage(cs).len() <= cs.len(),
        forall|k: int| 0 <= k < with_usage(cs).len() ==> (#[trigger] with_usage(cs)[k]) < cs.len(),
    decreases cs.len(),
{
    if cs.len() > 0 {
        lemma_with_usage(cs.drop_last());
    }
}

/// Every index that the sorting yields is an index of the snapshot.
pub proof fn lemma_highest_order(cs: Seq<CgroupContext>, count: usize)
    ensures
        highest_order(cs, count).len() <= cs.len(),
        forall|k: int|
            0 <= k < highest_order(cs, count).len() ==> (#[trigger] highest_order(cs, count)[k])
                < cs.len(),
{
    broadcast use vstd::seq_lib::group_to_multiset_ensures;

    let base = with_usage(cs);
    let sorted = stable_sorted(base, usage_rank(cs));
    lemma_with_usage(cs);
    lemma_stable_sorted(base, usage_rank(cs));
    assert forall|k: int| 0 <= k < sorted.len() implies (#[trigger] sorted[k]) < cs.len() by {
        assert(sorted.to_multiset().contains(sorted[k]));
        assert(base.to_multiset().contains(sorted[k]));
        assert(base.contains(sorted[k]));
        let j = choose|j: int| 0 <= j < base.len() && base[j] == sorted[k];
        assert(base[j] < cs.len());
    }
}

/// One step of dropping the page cache.
#[derive(Debug)]
pub enum CacheStep {
    /// Write the value to `/proc/sys/vm/drop_caches`.
    Write { value: String },
    /// Wait for so many milliseconds.
    Sleep { millis: u64 },
}

/// What the file holds after a step, where it held `value` before.
pub open spec fn after_step(step: CacheStep, value: Seq<char>) -> Seq<char> {
    match step {
        CacheStep::Write { value: written } => written@,
        CacheStep::Sleep { .. } => value,
    }
}

/// What the file holds after the steps, where it held `value` before.
pub open spec fn after_steps(steps: Seq<CacheStep>, value: Seq<char>) -> Seq<char>
    decreases steps.len(),
{
    if steps.len() == 0 {
        value
    } else {
        after_step(steps.last(), after_steps(steps.drop_last(), value))
    }
}

/// The value that is written back after the drop: what the file held,
/// without the white space around it, or `0` where it could not be read.
pub open spec fn previous_value(current: Option<&str>) -> Seq<char> {
    match current {
        Some(c) => trim(c@),
        None => "0"@,
    }
}

/// Whether the steps are those of one drop that restores `previous`: write
/// `1`, wait 100 milliseconds, write `previous`.
pub open spec fn drops_and_restores(steps: Seq<CacheStep>, previous: Seq<char>) -> bool {
    steps.len() == 3 && steps[0] is Write && steps[0]->value@ == "1"@ && steps[1]
        == (CacheStep::Sleep { millis: 100 }) && steps[2] is Write && steps[2]->value@ == previous
}

/// Dropping the cache leaves the file as it was: after the steps of a drop
/// that restores the value the file held, it holds that value again, and so
/// after any number of drops one after the other.
pub proof fn lemma_drop_restores(steps: Seq<CacheStep>, value: Seq<char>)
    requires
        drops_and_restores(steps, value),
    ensures
        after_steps(steps, value) == value,
        after_steps(steps, after_steps(steps, value)) == value,
{
    assert(steps.drop_last().drop_last().drop_last() =~= Seq::<CacheStep>::empty());
    assert(steps.drop_last().last() == steps[1]);
    assert(steps.drop_last().drop_last().last() == steps[0]);
    assert(steps.last() == steps[2]);
    reveal_with_fuel(after_steps, 4);
}

/// What is to be done to drop the page cache.
#[derive(Debug)]
pub enum DropStep {
    /// Nothing more: the result is known.
    Done { result: ActionResult },
    /// The steps are to be taken in order.
    Steps { previous: String, steps: Vec<CacheStep> },
}

/// How far a drop of the page cache has come.
#[derive(Debug)]
pub enum DropProgress {
    /// The step at the index is to be taken.
    Take { index: usize },
    /// No step is left to take: all were taken, or one failed.
    Finished { written: Result<(), OomdError> },
}

/// What follows the step at `index` of `len` steps that ended with
/// `outcome`: a step that failed ends the drop with its error, the last
/// step ends it well, and after any other step the next one is taken.
pub open spec fn follows(index: usize, len: usize, outcome: Result<(), OomdError>) -> DropProgress {
    if outcome is Err {
        DropProgress::Finished { written: outcome }
    } else if index + 1 < len {
        DropProgress::Take { index: (index + 1) as usize }
    } else {
        DropProgress::Finished { written: Ok(()) }
    }
}

/// Where a drop of `len` steps begins.
pub fn start_drop(len: usize) -> (r: DropProgress)
    ensures
        r == if len > 0 {
            DropProgress::Take { index: 0 }
        } else {
            DropProgress::Finished { written: Ok(()) }
        },
{
    if len > 0 {
        DropProgress::Take { index: 0 }
    } else {
        DropProgress::Finished { written: Ok(()) }
    }
}

/// What follows the step at `index` of `len` steps that ended with
/// `outcome`. A write that failed ends the drop: no later step is taken.
pub fn next_drop_step(index: usize, len: usize, outcome: Result<(), OomdError>) -> (r:
    DropProgress)
    requires
        index < len,
    ensures
        r == follows(index, len, outcome),
{
    match outcome {
        Err(e) => DropProgress::Finished { written: Err(e) },
        Ok(()) => {
            if index + 1 < len {
                DropProgress::Take { index: index + 1 }
            } else {
                DropProgress::Finished { written: Ok(()) }
            }
        },
    }
}

/// What is to be done to reclaim from one cgroup.
#[derive(Debug)]
pub enum ReclaimStep {
    /// Nothing more: the result is known.
    Done { result: ActionResult },
    /// The content is to be written to the file at the path.
    Write { path: String, content: String },
}

/// What one run of the action is to do.
#[derive(Debug)]
pub enum ReclaimPlan {
    /// Nothing: the action is disabled.
    Nothing,
    /// Drop the page cache.
    DropCache,
    /// Reclaim the amount from one cgroup; its result is the run's.
    Single { cgroup_path: String, amount: u64 },
    /// Reclaim the amount from each of the cgroups, and sum up.
    Many { cgroups: Vec<String>, amount: u64 },
}

/// The reason that a dry run gives for not reclaiming.
pub open spec fn dry_reclaim_reason(cgroup_path: Seq<char>, amount: u64) -> Seq<char> {
    "Dry run: would reclaim "@ + decimal_text(amount as nat) + " bytes from "@ + cgroup_path
}

/// The message of a reclaim that was written.
pub open spec fn reclaimed_message(cgroup_path: Seq<char>, amount: u64) -> Seq<char> {
    "Reclaimed "@ + decimal_text(amount as nat) + " bytes from "@ + cgroup_path
}

/// The number of successes among the outcomes.
pub open spec fn successes(outcomes: Seq<Result<ActionResult, OomdError>>) -> nat
    decreases outcomes.len(),
{
    if outcomes.len() == 0 {
        0
    } else {
        successes(outcomes.drop_last()) + if outcomes.last() is Ok && outcomes.last()->Ok_0
            is Success {
            1nat
        } else {
            0nat
        }
    }
}

/// Whether `t` is what an outcome says: the message of a success, the error
/// of a failure, the reason of a skip, or the message of an error.
pub open spec fn says(outcome: Result<ActionResult, OomdError>, t: Seq<char>) -> bool {
    match outcome {
        Ok(ActionResult::Success { message, .. }) => t == message@,
        Ok(ActionResult::Failed { error, .. }) => t == error@,
        Ok(ActionResult::Skipped { reason }) => t == reason@,
        Err(e) => crate::text::starts_with(t, e.heading()) && (e.detail() is Some ==> t
            == e.heading() + e.detail()->0),
    }
}

/// Whether details sum up the reclaims from several cgroups: how many were
/// tried, how much was reclaimed in all (the amount for each success, at
/// most the largest `u64`), and what each outcome says, in order.
pub open spec fn summed_up(
    details: KeyedList<Value>,
    amount_per_cgroup: u64,
    outcomes: Seq<Result<ActionResult, OomdError>>,
) -> bool {
    &&& view_under(details, "cgroups_attempted"@) == Some(
        ValueView::Unsigned(outcomes.len() as u64),
    )
    &&& view_under(details, "total_reclaimed"@) == Some(
        ValueView::Unsigned(capped((successes(outcomes) * amount_per_cgroup) as nat)),
    )
    &&& match view_under(details, "results"@) {
        Some(ValueView::Texts(ts)) => ts.len() == outcomes.len() && forall|i: int|
            0 <= i < ts.len() ==> says(outcomes[i], #[trigger] ts[i]),
        _ => false,
    }
}

/// The name under which the kind of an outcome is booked.
pub open spec fn outcome_name(outcome: Result<ActionResult, OomdError>) -> Seq<char> {
    match outcome {
        Ok(ActionResult::Success { .. }) => "success"@,
        Ok(ActionResult::Failed { .. }) => "failed"@,
        Ok(ActionResult::Skipped { .. }) => "skipped"@,
        Err(_) => "error"@,
    }
}

/// The name under which the text of an outcome is booked.
pub open spec fn outcome_text_name(outcome: Result<ActionResult, OomdError>) -> Seq<char> {
    match outcome {
        Ok(ActionResult::Success { .. }) => "last_message"@,
        Ok(ActionResult::Failed { .. }) => "last_error"@,
        Ok(ActionResult::Skipped { .. }) => "last_skip_reason"@,
        Err(_) => "last_error"@,
    }
}

/// The memory reclaim action.
#[derive(Debug)]
pub struct MemoryReclaimAction {
    pub base: BasePlugin,
    pub reclaim_strategy: ReclaimStrategy,
    pub reclaim_amount_bytes: u64,
    pub dry_run: bool,
    pub cgroup_manager: Option<CgroupManager>,
}

/// The percentage that settings give, or 10 %.
pub open spec fn configured_percentage(config: KeyedList<Value>) -> Fixed {
    match setting_of::<Fixed>(config, "percentage"@) {
        Some(p) => p,
        None => Fixed { hundredths: 1000 },
    }
}

/// The strategy that settings name. A name that is none of the four names
/// stands for dropping the cache.
pub open spec fn reclaim_named(name: Seq<char>, config: KeyedList<Value>) -> ReclaimView {
    if name == "cgroup_target"@ {
        ReclaimView::CgroupTarget {
            cgroup_path: match setting_of::<String>(config, "cgroup_path"@) {
                Some(p) => p@,
                None => Seq::empty(),
            },
            percentage: configured_percentage(config),
        }
    } else if name == "all_cgroups"@ {
        ReclaimView::AllCgroups { percentage: configured_percentage(config) }
    } else if name == "highest_usage"@ {
        ReclaimView::HighestUsage {
            percentage: configured_percentage(config),
            cgroup_count: match setting_of::<usize>(config, "cgroup_count"@) {
                Some(n) => n,
                None => 3,
            },
        }
    } else {
        ReclaimView::DropCache
    }
}

/// The name of a strategy in settings.
pub open spec fn reclaim_name_of(strategy: ReclaimView) -> Seq<char> {
    match strategy {
        ReclaimView::DropCache => "drop_cache"@,
        ReclaimView::CgroupTarget { .. } => "cgroup_target"@,
        ReclaimView::AllCgroups { .. } => "all_cgroups"@,
        ReclaimView::HighestUsage { .. } => "highest_usage"@,
    }
}

impl ReclaimStrategy {
    /// The name of the strategy in settings.
    pub fn name(&self) -> (r: &'static str)
        ensures
            r@ == reclaim_name_of(self@),
    {
        match self {
            ReclaimStrategy::DropCache => "drop_cache",
            ReclaimStrategy::CgroupTarget { .. } => "cgroup_target",
            ReclaimStrategy::AllCgroups { .. } => "all_cgroups",
            ReclaimStrategy::HighestUsage { .. } => "highest_usage",
        }
    }

    /// The strategy that settings name.
    pub fn from_config(name: &str, config: &KeyedList<Value>) -> (r: ReclaimStrategy)
        ensures
            r@ == reclaim_named(name@, *config),
    {
        let n = chars_of(name);
        let percentage = match read_setting::<Fixed>(config, "percentage") {
            Some(p) => p,
            None => Fixed { hundredths: 1000 },
        };
        if is_word(&n, "cgroup_target") {
            let cgroup_path = match read_setting::<String>(config, "cgroup_path") {
                Some(p) => p,
                None => String::new(),
            };
            ReclaimStrategy::CgroupTarget { cgroup_path, percentage }
        } else if is_word(&n, "all_cgroups") {
            ReclaimStrategy::AllCgroups { percentage }
        } else if is_word(&n, "highest_usage") {
            let cgroup_count = match read_setting::<usize>(config, "cgroup_count") {
                Some(c) => c,
                None => 3,
            };
            ReclaimStrategy::HighestUsage { percentage, cgroup_count }
        } else {
            ReclaimStrategy::DropCache
        }
    }
}

/// The names under which the settings are booked differ from each other.
pub proof fn lemma_reclaim_setting_names()
    ensures
        "strategy"@ != "reclaim_amount_bytes"@,
        "strategy"@ != "dry_run"@,
        "reclaim_amount_bytes"@ != "dry_run"@,
        "initialized"@ != "strategy"@,
        "initialized"@ != "reclaim_amount_bytes"@,
        "initialized"@ != "dry_run"@,
{
    reveal_strlit("strategy");
    reveal_strlit("dry_run");
    reveal_strlit("reclaim_amount_bytes");
    reveal_strlit("initialized");
    assert("initialized"@.len() == 11);
    assert("strategy"@.len() == 8);
    assert("dry_run"@.len() == 7);
    assert("reclaim_amount_bytes"@.len() == 20);
}

impl MemoryReclaimAction {
    /// The strategy that the settings give, or the one the plugin has.
    pub open spec fn configured_strategy(self, config: KeyedList<Value>) -> ReclaimView {
        match setting_of::<String>(config, "strategy"@) {
            Some(name) => reclaim_named(name@, config),
            None => self.reclaim_strategy@,
        }
    }

    /// The amount that the settings give, or the one the plugin has.
    pub open spec fn configured_amount(self, config: KeyedList<Value>) -> u64 {
        match setting_of::<u64>(config, "reclaim_amount_bytes"@) {
            Some(n) => n,
            None => self.reclaim_amount_bytes,
        }
    }

    /// Whether the settings ask for a dry run, or the plugin does.
    pub open spec fn configured_dry_run(self, config: KeyedList<Value>) -> bool {
        match setting_of::<bool>(config, "dry_run"@) {
            Some(b) => b,
            None => self.dry_run,
        }
    }

    /// Whether `after` is `self` with the settings `config` taken: each
    /// setting that `config` gives in its kind is taken, the others stay;
    /// the status says that the plugin is initialized and, unless the amount
    /// is zero, tells the three settings. Nothing else changes.
    pub open spec fn configured(
        self,
        after: MemoryReclaimAction,
        config: KeyedList<Value>,
    ) -> bool {
        &&& after.reclaim_strategy@ == self.configured_strategy(config)
        &&& after.reclaim_amount_bytes == self.configured_amount(config)
        &&& after.dry_run == self.configured_dry_run(config)
        &&& after.cgroup_manager == self.cgroup_manager
        &&& after.base.config == config
        &&& self.base.same_but_settings(after.base)
        &&& view_under(after.base.status, "initialized"@) == Some(ValueView::Bool(true))
        &&& after.reclaim_amount_bytes != 0 ==> view_under(after.base.status, "strategy"@)
            == Some(ValueView::Text(reclaim_name_of(after.reclaim_strategy@))) && view_under(
            after.base.status,
            "reclaim_amount_bytes"@,
        ) == Some(ValueView::Unsigned(after.reclaim_amount_bytes)) && view_under(
            after.base.status,
            "dry_run"@,
        ) == Some(ValueView::Bool(after.dry_run))
        &&& forall|k: Seq<char>|
            k != "initialized"@ && (after.reclaim_amount_bytes == 0 || (k != "strategy"@ && k
                != "reclaim_amount_bytes"@ && k != "dry_run"@))
                ==> #[trigger] after.base.status.lookup(k) == self.base.status.lookup(k)
    }

    /// Whether `after` is `self` with the outcome of one run booked in the
    /// status: under `last_result` the kind of the outcome, and under
    /// `last_message`, `last_error` or `last_skip_reason` its text. For an
    /// error the text is the error's message. Nothing else changes, and a
    /// disabled action books nothing.
    pub open spec fn booked(
        self,
        after: MemoryReclaimAction,
        outcome: Result<ActionResult, OomdError>,
    ) -> bool {
        &&& self.base.same_but_status(after.base)
        &&& after.reclaim_strategy == self.reclaim_strategy
        &&& after.reclaim_amount_bytes == self.reclaim_amount_bytes
        &&& after.dry_run == self.dry_run
        &&& after.cgroup_manager == self.cgroup_manager
        &&& !self.base.enabled ==> after.base.status == self.base.status
        &&& self.base.enabled ==> view_under(after.base.status, "last_result"@) == Some(
            ValueView::Text(outcome_name(outcome)),
        )
        &&& self.base.enabled ==> match outcome {
            Ok(ActionResult::Success { message, .. }) => view_under(
                after.base.status,
                "last_message"@,
            ) == Some(ValueView::Text(message@)),
            Ok(ActionResult::Failed { error, .. }) => view_under(after.base.status, "last_error"@)
                == Some(ValueView::Text(error@)),
            Ok(ActionResult::Skipped { reason }) => view_under(
                after.base.status,
                "last_skip_reason"@,
            ) == Some(ValueView::Text(reason@)),
            Err(e) => match view_under(after.base.status, "last_error"@) {
                Some(ValueView::Text(t)) => crate::text::starts_with(t, e.heading()) && (
                e.detail() is Some ==> t == e.heading() + e.detail()->0),
                _ => false,
            },
        }
        &&& forall|k: Seq<char>|
            k != "last_result"@ && k != outcome_text_name(outcome)
                ==> #[trigger] after.base.status.lookup(k) == self.base.status.lookup(k)
    }

    /// A reclaim action that drops the page cache, with an amount of 100 MiB
    /// for the strategies that take one.
    pub fn new() -> (r: MemoryReclaimAction)
        ensures
            r.base.name@ == "memory_reclaim_action"@,
            r.base.version@ == "1.0.0"@,
            r.base.enabled,
            r.reclaim_strategy is DropCache,
            r.reclaim_amount_bytes == 104857600,
            !r.dry_run,
            r.cgroup_manager is None,
    {
        MemoryReclaimAction {
            base: BasePlugin::new(
                "memory_reclaim_action",
                "1.0.0",
                "Reclaims memory from cgroups using various strategies",
            ),
            reclaim_strategy: ReclaimStrategy::default(),
            reclaim_amount_bytes: 104857600,
            dry_run: false,
            cgroup_manager: None,
        }
    }

    /// The same action with another strategy.
    pub fn with_strategy(self, strategy: ReclaimStrategy) -> (r: MemoryReclaimAction)
        ensures
            r.reclaim_strategy == strategy,
            r.base == self.base,
            r.reclaim_amount_bytes == self.reclaim_amount_bytes,
            r.dry_run == self.dry_run,
            r.cgroup_manager == self.cgroup_manager,
    {
        let mut r = self;
        r.reclaim_strategy = strategy;
        r
    }

    /// The same action with another amount.
    pub fn with_reclaim_amount(self, amount_bytes: u64) -> (r: MemoryReclaimAction)
        ensures
            r.reclaim_amount_bytes == amount_bytes,
            r.base == self.base,
            r.reclaim_strategy == self.reclaim_strategy,
            r.dry_run == self.dry_run,
            r.cgroup_manager == self.cgroup_manager,
    {
        let mut r = self;
        r.reclaim_amount_bytes = amount_bytes;
        r
    }

    /// The same action as a dry run or not.
    pub fn with_dry_run(self, dry_run: bool) -> (r: MemoryReclaimAction)
        ensures
            r.dry_run == dry_run,
            r.base == self.base,
            r.reclaim_strategy == self.reclaim_strategy,
            r.reclaim_amount_bytes == self.reclaim_amount_bytes,
            r.cgroup_manager == self.cgroup_manager,
    {
        let mut r = self;
        r.dry_run = dry_run;
        r
    }

    /// The same action with a cgroup manager to find the files with.
    pub fn with_cgroup_manager(self, manager: CgroupManager) -> (r: MemoryReclaimAction)
        ensures
            r.cgroup_manager == Some(manager),
            r.base == self.base,
            r.reclaim_strategy == self.reclaim_strategy,
            r.reclaim_amount_bytes == self.reclaim_amount_bytes,
            r.dry_run == self.dry_run,
    {
        let mut r = self;
        r.cgroup_manager = Some(manager);
        r
    }

    /// Initializes the action from its settings: `strategy` (with
    /// `cgroup_path`, `percentage` and `cgroup_count` as the strategy takes
    /// them), `reclaim_amount_bytes` and `dry_run`. A setting that is missing
    /// or of another kind leaves what the plugin has. After that an amount of
    /// zero is a configuration error; else the settings are booked in the
    /// status.
    pub fn init(&mut self, config: KeyedList<Value>) -> (r: Result<(), OomdError>)
        ensures
            old(self).configured(*final(self), config),
            final(self).reclaim_amount_bytes == 0 ==> r is Err && r->Err_0 is Config,
            final(self).reclaim_amount_bytes != 0 ==> r is Ok,
    {
        let strategy = read_setting::<String>(&config, "strategy");
        let strategy = match strategy {
            Some(name) => Some(ReclaimStrategy::from_config(name.as_str(), &config)),
            None => None,
        };
        let amount = read_setting::<u64>(&config, "reclaim_amount_bytes");
        let dry_run = read_setting::<bool>(&config, "dry_run");
        self.base.init(config);
        if let Some(s) = strategy {
            self.reclaim_strategy = s;
        }
        if let Some(n) = amount {
            self.reclaim_amount_bytes = n;
        }
        if let Some(b) = dry_run {
            self.dry_run = b;
        }
        proof {
            lemma_reclaim_setting_names();
        }
        if self.reclaim_amount_bytes == 0 {
            return Err(
                OomdError::Config(String::from_str("Reclaim amount must be greater than 0")),
            );
        }
        self.base.update_status(
            String::from_str("strategy"),
            Value::Text(String::from_str(self.reclaim_strategy.name())),
        );
        self.base.update_status(
            String::from_str("reclaim_amount_bytes"),
            Value::Unsigned(self.reclaim_amount_bytes),
        );
        self.base.update_status(String::from_str("dry_run"), Value::Bool(self.dry_run));
        Ok(())
    }

    /// The keys of the `count` cgroups of the snapshot that use the most
    /// memory, the largest usage first. Cgroups whose usage was not read are
    /// left out.
    pub fn find_highest_usage_cgroups(context: &OomdContext, count: usize) -> (r: Vec<String>)
        ensures
            key_texts(r@) == highest_usage(*context, count),
    {
        let n = context.cgroups.len();
        let ghost cs = context.cgroups.values();
        let ghost rank = usage_rank(cs);
        let mut indices: Vec<usize> = Vec::new();
        let mut ranks: Vec<i128> = Vec::new();
        let mut i: usize = 0;
        assert(cs.take(0) =~= Seq::<CgroupContext>::empty());
        while i < n
            invariant
                i <= n,
                n == cs.len(),
                cs == context.cgroups.values(),
                rank == usage_rank(cs),
                indices@ == with_usage(cs.take(i as int)),
                ranks@.len() == indices@.len(),
                forall|k: int| 0 <= k < indices@.len() ==> ranks@[k] == rank(#[trigger] indices@[k]),
            decreases n - i,
        {
            proof {
                assert(cs.take(i + 1).drop_last() =~= cs.take(i as int));
                assert(cs.take(i + 1).last() == cs[i as int]);
            }
            match context.cgroups.value_at(i).memory_usage {
                Some(u) => {
                    indices.push(i);
                    ranks.push(-(u as i128));
                },
                None => {},
            }
            i += 1;
        }
        assert(cs.take(n as int) =~= cs);
        let mut order = sort_by_ranks(indices, ranks, Ghost(rank));
        if count < order.len() {
            order.truncate(count);
            assert(order@ =~= stable_sorted(with_usage(cs), rank).take(count as int));
        }
        proof {
            lemma_highest_order(cs, count);
        }
        let mut out: Vec<String> = Vec::new();
        let mut k: usize = 0;
        while k < order.len()
            invariant
                k <= order.len(),
                n == context.cgroups.keys().len(),
                order@ == highest_order(context.cgroups.values(), count),
                forall|j: int| 0 <= j < order@.len() ==> (#[trigger] order@[j]) < n,
                out@.len() == k,
                forall|j: int|
                    0 <= j < k ==> (#[trigger] out@[j])@ == context.cgroups.keys()[order@[j] as int],
            decreases order.len() - k,
        {
            let idx = order[k];
            assert(order@[k as int] < n);
            out.push(context.cgroups.key_at(idx).clone());
            k += 1;
        }
        assert(key_texts(out@) =~= highest_usage(*context, count));
        out
    }

    /// What one run is to do with the snapshot: nothing where the action is
    /// disabled, else what the strategy says, with the amount being the
    /// strategy's share of the configured amount.
    pub fn plan(&self, context: &OomdContext) -> (r: ReclaimPlan)
        ensures
            !self.base.enabled ==> r is Nothing,
            self.base.enabled ==> match self.reclaim_strategy@ {
                ReclaimView::DropCache => r is DropCache,
                ReclaimView::CgroupTarget { cgroup_path, percentage } => r is Single
                    && r->cgroup_path@ == cgroup_path && r->Single_amount == share_of(
                    self.reclaim_amount_bytes,
                    percentage,
                ),
                ReclaimView::AllCgroups { percentage } => r is Many && key_texts(r->cgroups@)
                    == context.cgroups.keys() && r->Many_amount == share_of(
                    self.reclaim_amount_bytes,
                    percentage,
                ),
                ReclaimView::HighestUsage { percentage, cgroup_count } => r is Many && key_texts(
                    r->cgroups@,
                ) == highest_usage(*context, cgroup_count) && r->Many_amount == share_of(
                    self.reclaim_amount_bytes,
                    percentage,
                ),
            },
    {
        if !self.base.is_enabled() {
            return ReclaimPlan::Nothing;
        }
        match &self.reclaim_strategy {
            ReclaimStrategy::DropCache => ReclaimPlan::DropCache,
            ReclaimStrategy::CgroupTarget { cgroup_path, percentage } => ReclaimPlan::Single {
                cgroup_path: cgroup_path.clone(),
                amount: share(self.reclaim_amount_bytes, *percentage),
            },
            ReclaimStrategy::AllCgroups { percentage } => ReclaimPlan::Many {
                cgroups: context.cgroups.key_list(),
                amount: share(self.reclaim_amount_bytes, *percentage),
            },
            ReclaimStrategy::HighestUsage { percentage, cgroup_count } => ReclaimPlan::Many {
                cgroups: Self::find_highest_usage_cgroups(context, *cgroup_count),
                amount: share(self.reclaim_amount_bytes, *percentage),
            },
        }
    }

    /// What is to be done to drop the page cache, given what
    /// `/proc/sys/vm/drop_caches` holds where it could be read. A dry run is
    /// skipped; else `1` is written, then after 100 milliseconds what the
    /// file held before.
    pub fn drop_page_cache(&self, current: Option<&str>) -> (r: DropStep)
        ensures
            self.dry_run ==> r is Done && r->result is Skipped && r->result->reason@
                == "Dry run: would drop page cache"@,
            !self.dry_run ==> r is Steps && r->previous@ == previous_value(current)
                && drops_and_restores(r->steps@, previous_value(current)),
    {
        if self.dry_run {
            return DropStep::Done {
                result: ActionResult::Skipped {
                    reason: String::from_str("Dry run: would drop page cache"),
                },
            };
        }
        let previous = match current {
            Some(c) => string_of(&trimmed(&chars_of(c))),
            None => String::from_str("0"),
        };
        let mut steps: Vec<CacheStep> = Vec::new();
        steps.push(CacheStep::Write { value: String::from_str("1") });
        steps.push(CacheStep::Sleep { millis: 100 });
        steps.push(CacheStep::Write { value: previous.clone() });
        DropStep::Steps { previous, steps }
    }

    /// The result of a drop whose steps were taken: the error of a write
    /// that failed, else a success that tells the value that was restored.
    pub fn drop_cache_result(previous: &str, written: Result<(), OomdError>) -> (r: Result<
        ActionResult,
        OomdError,
    >)
        ensures
            written is Err ==> r == Err::<ActionResult, OomdError>(written->Err_0),
            written is Ok ==> r is Ok && r->Ok_0 is Success && r->Ok_0->Success_message@
                == "Page cache dropped successfully"@ && view_under(
                r->Ok_0->Success_details,
                "previous_value"@,
            ) == Some(ValueView::Text(previous@)) && view_under(
                r->Ok_0->Success_details,
                "action"@,
            ) == Some(ValueView::Text("drop_page_cache"@)),
    {
        match written {
            Err(e) => Err(e),
            Ok(()) => {
                proof {
                    reveal_strlit("action");
                    reveal_strlit("previous_value");
                    assert("action"@.len() == 6);
                    assert("previous_value"@.len() == 14);
                }
                let mut details: KeyedList<Value> = KeyedList::new();
                details.insert(
                    String::from_str("action"),
                    Value::Text(String::from_str("drop_page_cache")),
                );
                details.insert(
                    String::from_str("previous_value"),
                    Value::Text(String::from_str(previous)),
                );
                Ok(
                    ActionResult::Success {
                        message: String::from_str("Page cache dropped successfully"),
                        details,
                    },
                )
            },
        }
    }

    /// What is to be done to reclaim `amount` bytes from the cgroup at
    /// `cgroup_path`, a path relative to the hierarchy root or an absolute
    /// one below it. Without a cgroup manager that fails; a path that does
    /// not lie below the root is invalid; a dry run is skipped; else the
    /// amount is to be written to the cgroup's reclaim file.
    pub fn reclaim_from_cgroup(&self, cgroup_path: &str, amount: u64) -> (r: Result<
        ReclaimStep,
        OomdError,
    >)
        ensures
            match self.cgroup_manager {
                None => r is Ok && r->Ok_0 is Done && r->Ok_0->result is Failed
                    && r->Ok_0->result->Failed_error@ == "Cgroup manager not available"@,
                Some(m) => match relative_below(
                    m.source_root(),
                    join_path(m.source_root(), cgroup_path@),
                ) {
                    None => r is Err && r->Err_0 is InvalidPath,
                    Some(rel) => if self.dry_run {
                        r is Ok && r->Ok_0 is Done && r->Ok_0->result is Skipped
                            && r->Ok_0->result->reason@ == dry_reclaim_reason(cgroup_path@, amount)
                    } else {
                        r is Ok && r->Ok_0 is Write && r->Ok_0->path@ == join_path(
                            join_path(m.source_root(), rel),
                            m.reclaim_name(),
                        ) && r->Ok_0->content@ == decimal_text(amount as nat)
                    },
                },
            },
    {
        match &self.cgroup_manager {
            None => Ok(
                ReclaimStep::Done {
                    result: ActionResult::Failed {
                        error: String::from_str("Cgroup manager not available"),
                        details: KeyedList::new(),
                    },
                },
            ),
            Some(m) => {
                let cgroup = match m.cgroup_at(cgroup_path) {
                    Ok(c) => c,
                    Err(e) => {
                        return Err(e);
                    },
                };
                if self.dry_run {
                    let mut out: Vec<char> = Vec::new();
                    write_str(&mut out, "Dry run: would reclaim ");
                    write_u64(&mut out, amount);
                    write_str(&mut out, " bytes from ");
                    write_str(&mut out, cgroup_path);
                    return Ok(
                        ReclaimStep::Done {
                            result: ActionResult::Skipped { reason: string_of(&out) },
                        },
                    );
                }
                let path = m.reclaim_file(&cgroup);
                let content = crate::cgroup::v2::reclaim_request(amount);
                Ok(ReclaimStep::Write { path, content })
            },
        }
    }

    /// The result of a reclaim that was tried: a success that tells the
    /// cgroup and the amount, or a failure that tells the error.
    pub fn reclaim_result(cgroup_path: &str, amount: u64, written: Result<(), OomdError>) -> (r:
        ActionResult)
        ensures
            written is Ok ==> r is Success && r->Success_message@ == reclaimed_message(
                cgroup_path@,
                amount,
            ) && view_under(r->Success_details, "cgroup"@) == Some(
                ValueView::Text(cgroup_path@),
            ) && view_under(r->Success_details, "amount"@) == Some(ValueView::Unsigned(amount)),
            written is Err ==> r is Failed && crate::text::starts_with(
                r->Failed_error@,
                "Failed to reclaim from "@ + cgroup_path@ + ": "@ + written->Err_0.heading(),
            ) && (written->Err_0.detail() is Some ==> r->Failed_error@ == "Failed to reclaim from "@
                + cgroup_path@ + ": "@ + written->Err_0.heading() + written->Err_0.detail()->0)
                && view_under(r->Failed_details, "cgroup"@) == Some(ValueView::Text(cgroup_path@))
                && view_under(r->Failed_details, "amount"@) == Some(ValueView::Unsigned(amount))
                && crate::plugins::actions::kill::told_after(
                r->Failed_details,
                "Failed to reclaim from "@ + cgroup_path@ + ": "@,
                r->Failed_error@,
            ),
    {
        proof {
            reveal_strlit("cgroup");
            reveal_strlit("amount");
            reveal_strlit("error");
            assert("cgroup"@.len() == 6);
            assert("amount"@.len() == 6);
            assert("cgroup"@[0] == 'c');
            assert("amount"@[0] == 'a');
            assert("error"@.len() == 5);
        }
        let mut details: KeyedList<Value> = KeyedList::new();
        details.insert(String::from_str("cgroup"), Value::Text(String::from_str(cgroup_path)));
        details.insert(String::from_str("amount"), Value::Unsigned(amount));
        match written {
            Ok(()) => {
                let mut out: Vec<char> = Vec::new();
                write_str(&mut out, "Reclaimed ");
                write_u64(&mut out, amount);
                write_str(&mut out, " bytes from ");
                write_str(&mut out, cgroup_path);
                ActionResult::Success { message: string_of(&out), details }
            },
            Err(e) => {
                let text = e.message();
                details.insert(String::from_str("error"), Value::Text(text.clone()));
                let mut out: Vec<char> = Vec::new();
                write_str(&mut out, "Failed to reclaim from ");
                write_str(&mut out, cgroup_path);
                write_str(&mut out, ": ");
                let ghost lead = out@;
                write_str(&mut out, text.as_str());
                proof {
                    let head = lead + e.heading();
                    assert(text@.take(e.heading().len() as int) == e.heading());
                    assert(out@.take(head.len() as int) =~= head) by {
                        assert forall|k: int| 0 <= k < head.len() implies out@[k] == head[k] by {
                            if k >= lead.len() {
                                assert(text@.take(e.heading().len() as int)[k - lead.len()]
                                    == text@[k - lead.len()]);
                            }
                        }
                    }
                    if e.detail() is Some {
                        assert(out@ =~= lead + e.heading() + e.detail()->0);
                    }
                }
                ActionResult::Failed { error: string_of(&out), details }
            },
        }
    }

    /// Sums up the reclaims from several cgroups. Partial success is a
    /// success: the result is a success where any cgroup was reclaimed from,
    /// and a failure where none was. The details tell how many cgroups were
    /// tried and how much was reclaimed in all: the amount for each success,
    /// at most the largest `u64`.
    pub fn reclaim_from_multiple_cgroups(
        amount_per_cgroup: u64,
        outcomes: &Vec<Result<ActionResult, OomdError>>,
    ) -> (r: ActionResult)
        ensures
            successes(outcomes@) > 0 ==> r is Success && r->Success_message@ == "Reclaimed "@
                + decimal_text(capped((successes(outcomes@) * amount_per_cgroup) as nat) as nat)
                + " bytes from "@ + decimal_text(outcomes@.len()) + " cgroups"@ && summed_up(
                r->Success_details,
                amount_per_cgroup,
                outcomes@,
            ),
            successes(outcomes@) == 0 ==> r is Failed && r->Failed_error@ == "No memory reclaimed"@
                && summed_up(r->Failed_details, amount_per_cgroup, outcomes@),
    {
        let mut count: usize = 0;
        let mut messages: Vec<String> = Vec::new();
        let mut i: usize = 0;
        assert(outcomes@.take(0) =~= Seq::<Result<ActionResult, OomdError>>::empty());
        while i < outcomes.len()
            invariant
                i <= outcomes.len(),
                count <= i,
                count == successes(outcomes@.take(i as int)),
                messages@.len() == i,
                forall|j: int| 0 <= j < i ==> says(outcomes@[j], (#[trigger] messages@[j])@),
            decreases outcomes.len() - i,
        {
            proof {
                assert(outcomes@.take(i + 1).drop_last() =~= outcomes@.take(i as int));
                assert(outcomes@.take(i + 1).last() == outcomes@[i as int]);
            }
            match &outcomes[i] {
                Ok(ActionResult::Success { message, .. }) => {
                    count += 1;
                    messages.push(message.clone());
                },
                Ok(ActionResult::Failed { error, .. }) => {
                    messages.push(error.clone());
                },
                Ok(ActionResult::Skipped { reason }) => {
                    messages.push(reason.clone());
                },
                Err(e) => {
                    messages.push(e.message());
                },
            }
            i += 1;
        }
        assert(outcomes@.take(outcomes.len() as int) =~= outcomes@);
        let c: u128 = count as u128;
        let a: u128 = amount_per_cgroup as u128;
        assert(c * a <= 0xffff_ffff_ffff_ffff * 0xffff_ffff_ffff_ffff) by (nonlinear_arith)
            requires
                c <= 0xffff_ffff_ffff_ffff,
                a <= 0xffff_ffff_ffff_ffff,
        ;
        let product: u128 = c * a;
        let total: u64 = if product > u64::MAX as u128 {
            u64::MAX
        } else {
            product as u64
        };
        proof {
            reveal_strlit("cgroups_attempted");
            reveal_strlit("total_reclaimed");
            reveal_strlit("results");
            assert("cgroups_attempted"@.len() == 17);
            assert("total_reclaimed"@.len() == 15);
            assert("results"@.len() == 7);
            if count == 0 {
                assert(c * a == 0) by (nonlinear_arith)
                    requires
                        c == 0,
                ;
            }
        }
        let mut details: KeyedList<Value> = KeyedList::new();
        details.insert(
            String::from_str("cgroups_attempted"),
            Value::Unsigned(outcomes.len() as u64),
        );
        details.insert(String::from_str("total_reclaimed"), Value::Unsigned(total));
        let ghost told = Seq::new(messages@.len(), |i: int| messages@[i]@);
        details.insert(String::from_str("results"), Value::Texts(messages));
        proof {
            assert(view_under(details, "results"@) == Some(ValueView::Texts(told)));
            assert forall|i: int| 0 <= i < told.len() implies says(
                outcomes@[i],
                #[trigger] told[i],
            ) by {}
            assert(summed_up(details, amount_per_cgroup, outcomes@));
        }
        if count > 0 {
            let mut out: Vec<char> = Vec::new();
            write_str(&mut out, "Reclaimed ");
            write_u64(&mut out, total);
            write_str(&mut out, " bytes from ");
            write_u64(&mut out, outcomes.len() as u64);
            write_str(&mut out, " cgroups");
            ActionResult::Success { message: string_of(&out), details }
        } else {
            ActionResult::Failed { error: String::from_str("No memory reclaimed"), details }
        }
    }

    /// Books the outcome of a run in the status, under `last_result` the
    /// kind of the outcome, and lets the chain go on.
    pub fn run(&mut self, outcome: &Result<ActionResult, OomdError>) -> (r: PluginRet)
        ensures
            r == PluginRet::Continue,
            old(self).booked(*final(self), *outcome),
    {
        if !self.base.is_enabled() {
            return PluginRet::Continue;
        }
        proof {
            reveal_strlit("last_result");
            reveal_strlit("last_message");
            reveal_strlit("last_error");
            reveal_strlit("last_skip_reason");
            assert("last_result"@.len() == 11);
            assert("last_message"@.len() == 12);
            assert("last_error"@.len() == 10);
            assert("last_skip_reason"@.len() == 16);
        }
        match outcome {
            Ok(ActionResult::Success { message, .. }) => {
                self.base.update_status(
                    String::from_str("last_message"),
                    Value::Text(message.clone()),
                );
                self.base.update_status(
                    String::from_str("last_result"),
                    Value::Text(String::from_str("success")),
                );
            },
            Ok(ActionResult::Failed { error, .. }) => {
                self.base.update_status(String::from_str("last_error"), Value::Text(error.clone()));
                self.base.update_status(
                    String::from_str("last_result"),
                    Value::Text(String::from_str("failed")),
                );
            },
            Ok(ActionResult::Skipped { reason }) => {
                self.base.update_status(
                    String::from_str("last_skip_reason"),
                    Value::Text(reason.clone()),
                );
                self.base.update_status(
                    String::from_str("last_result"),
                    Value::Text(String::from_str("skipped")),
                );
            },
            Err(e) => {
                self.base.update_status(String::from_str("last_error"), Value::Text(e.message()));
                self.base.update_status(
                    String::from_str("last_result"),
                    Value::Text(String::from_str("error")),
                );
            },
        }
        PluginRet::Continue
    }

    /// Books the outcome of a run as `run` does and reports that the action
    /// was executed.
    pub fn execute(&mut self, outcome: &Result<ActionResult, OomdError>) -> (r: ActionResult)
        ensures
            r is Success,
            r->Success_message@ == "Memory reclaim action executed"@,
            r->Success_details.keys() == Seq::<Seq<char>>::empty(),
            old(self).booked(*final(self), *outcome),
    {
        self.run(outcome);
        ActionResult::Success {
            message: String::from_str("Memory reclaim action executed"),
            details: KeyedList::new(),
        }
    }

    /// Whether the action can be executed: always.
    pub fn can_execute(&self) -> (r: bool)
        ensures
            r,
    {
        true
    }

    /// The status of the action: that of its base, and that it is an action
    /// of the kind `memory_reclaim`.
    pub fn get_status(&self) -> (r: KeyedList<Value>)
        ensures
            view_under(r, "type"@) == Some(ValueView::Text("action"@)),
            view_under(r, "action_type"@) == Some(ValueView::Text("memory_reclaim"@)),
            forall|k: Seq<char>|
                k != "type"@ && k != "action_type"@ ==> #[trigger] view_under(r, k)
                    == self.base.merged_status(k),
    {
        proof {
            reveal_strlit("type");
            reveal_strlit("action_type");
            assert("type"@.len() == 4);
            assert("action_type"@.len() == 11);
        }
        let mut status = self.base.get_status();
        let ghost s0 = status;
        status.insert(String::from_str("type"), Value::Text(String::from_str("action")));
        let ghost s1 = status;
        status.insert(
            String::from_str("action_type"),
            Value::Text(String::from_str("memory_reclaim")),
        );
        assert forall|k: Seq<char>| k != "type"@ && k != "action_type"@ implies #[trigger] view_under(
            status,
            k,
        ) == self.base.merged_status(k) by {
            assert(s1.lookup(k) == s0.lookup(k));
            assert(view_under(s0, k) == self.base.merged_status(k));
        }
        status
    }
}

/// The settings of a memory reclaim action as a record.
#[derive(Debug)]
pub struct MemoryReclaimActionConfig {
    pub strategy: String,
    pub reclaim_amount_bytes: u64,
    pub percentage: Option<Fixed>,
    pub cgroup_path: Option<String>,
    pub cgroup_count: Option<usize>,
    pub dry_run: bool,
    pub enabled: bool,
}

impl Default for MemoryReclaimActionConfig {
    /// Dropping the cache; 100 MiB, 10 % and three cgroups for the
    /// strategies that take them.
    fn default() -> (r: MemoryReclaimActionConfig)
        ensures
            r.strategy@ == "drop_cache"@,
            r.reclaim_amount_bytes == 104857600,
            r.percentage == Some(Fixed { hundredths: 1000 }),
            r.cgroup_path is None,
            r.cgroup_count == Some(3usize),
            !r.dry_run,
            r.enabled,
    {
        MemoryReclaimActionConfig {
            strategy: String::from_str("drop_cache"),
            reclaim_amount_bytes: 104857600,
            percentage: Some(Fixed { hundredths: 1000 }),
            cgroup_path: None,
            cgroup_count: Some(3),
            dry_run: false,
            enabled: true,
        }
    }
}

} // verus!
