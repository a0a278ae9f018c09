//! The kill action: ends processes to free memory.
//!
//! The action gathers the process ids of the cgroups in the snapshot, learns
//! of each process what `/proc` tells, sorts the processes by the strategy's
//! rank and takes the first few. The caller reads `/proc` and delivers the
//! signals; what is here chooses, decides and keeps the books.

use crate::cgroup::table::capped;
use crate::cgroup::types::{CgroupContext, OomdContext};
use crate::error::OomdError;
use crate::keyed::KeyedList;
use crate::model::{PluginRet, ProcessInfo};
use crate::number::{
    i32_or_zero, parse_i32_or_zero, parse_u64_or_zero, signed_text, u64_or_zero, write_i32,
    write_str,
};
use crate::plugins::base::{setting_of, BasePlugin};
use crate::plugins::interface::ActionResult;
use crate::plugins::value::{view_under, Value, ValueView};
use crate::sorting::{lemma_sorting_ignores_order, rank_is_unique, sort_by_ranks, stable_sorted};
use crate::text::{
    chars_of, is_word, slice_of, split_words, starts_with, string_of, texts, trim, trimmed, words,
};
use vstd::prelude::*;

verus! {

/// Which processes are killed first.
#[derive(Debug, Clone)]
pub enum KillStrategy {
    /// Those that use the most memory.
    HighestMemory,
    /// Those with the highest OOM score.
    HighestOomScore,
    /// Those with the lowest OOM score.
    LowestOomScore,
    /// Those that started first.
    Oldest,
    /// Those that started last.
    Newest,
    /// The processes of one cgroup, those that use the most memory first.
    CgroupTarget { cgroup_path: String },
}

impl Default for KillStrategy {
    fn default() -> (r: KillStrategy)
        ensures
            r is HighestMemory,
    {
        KillStrategy::HighestMemory
    }
}

/// The key of a process under a strategy. The process of the smallest key
/// is killed first.
pub open spec fn kill_key(strategy: KillStrategy, p: ProcessInfo) -> int {
    match strategy {
        KillStrategy::HighestMemory => -(p.memory_usage as int),
        KillStrategy::HighestOomScore => -(p.oom_score as int),
        KillStrategy::LowestOomScore => p.oom_score as int,
        KillStrategy::Oldest => p.start_time as int,
        KillStrategy::Newest => -(p.start_time as int),
        KillStrategy::CgroupTarget { .. } => -(p.memory_usage as int),
    }
}

/// The rank of a process under a strategy: its key, and among processes of
/// the same key its process id. The process of the smallest rank is killed
/// first, so of two processes of the same key the one with the smaller
/// process id comes first.
pub open spec fn kill_rank(strategy: KillStrategy, p: ProcessInfo) -> int {
    kill_key(strategy, p) * 0x1_0000_0000 + (p.pid + 0x8000_0000)
}

/// The ranking of a strategy.
pub open spec fn rank_by(strategy: KillStrategy) -> spec_fn(ProcessInfo) -> int {
    |p: ProcessInfo| kill_rank(strategy, p)
}

/// The processes that are chosen from `processes`: sorted by the strategy's
/// rank and cut to at most `max`. Processes of the same rank, which are
/// processes of the same process id, stay in the order in which they came.
pub open spec fn selected(strategy: KillStrategy, processes: Seq<ProcessInfo>, max: u32) -> Seq<
    ProcessInfo,
> {
    let sorted = stable_sorted(processes, rank_by(strategy));
    if max < sorted.len() {
        sorted.take(max as int)
    } else {
        sorted
    }
}

/// Whether no two of the processes have the same process id.
pub open spec fn distinct_pids(processes: Seq<ProcessInfo>) -> bool {
    forall|i: int, j: int| 0 <= i < j < processes.len() ==> processes[i].pid != processes[j].pid
}

/// Processes of the same rank have the same key and the same process id.
pub proof fn lemma_rank_tells_apart(strategy: KillStrategy, p: ProcessInfo, q: ProcessInfo)
    requires
        kill_rank(strategy, p) == kill_rank(strategy, q),
    ensures
        p.pid == q.pid,
        kill_key(strategy, p) == kill_key(strategy, q),
{
}

/// A process of a smaller key has the smaller rank, whatever the process
/// ids.
pub proof fn lemma_key_comes_first(strategy: KillStrategy, p: ProcessInfo, q: ProcessInfo)
    requires
        kill_key(strategy, p) < kill_key(strategy, q),
    ensures
        kill_rank(strategy, p) < kill_rank(strategy, q),
{
}

/// The process ids of one observation; none where they were not read.
pub open spec fn pids_in(c: CgroupContext) -> Seq<i32> {
    match c.pids {
        Some(v) => v@,
        None => Seq::empty(),
    }
}

/// The process ids of all observations, in order.
pub open spec fn all_pids(cs: Seq<CgroupContext>) -> Seq<i32>
    decreases cs.len(),
{
    if cs.len() == 0 {
        Seq::empty()
    } else {
        all_pids(cs.drop_last()) + pids_in(cs.last())
    }
}

/// The process ids that a strategy looks at: those of the named cgroup for
/// a cgroup target, else those of every cgroup of the snapshot.
pub open spec fn candidates(strategy: KillStrategy, context: OomdContext) -> Seq<i32> {
    match strategy {
        KillStrategy::CgroupTarget { cgroup_path } => match context.cgroups.lookup(cgroup_path@) {
            Some(c) => pids_in(c),
            None => Seq::empty(),
        },
        _ => all_pids(context.cgroups.values()),
    }
}

/// `s` without the characters `c` that it begins with.
pub open spec fn strip_start(s: Seq<char>, c: char) -> Seq<char>
    decreases s.len(),
{
    if s.len() > 0 && s[0] == c {
        strip_start(s.skip(1), c)
    } else {
        s
    }
}

/// `s` without the characters `c` that it ends with.
pub open spec fn strip_end(s: Seq<char>, c: char) -> Seq<char>
    decreases s.len(),
{
    if s.len() > 0 && s.last() == c {
        strip_end(s.drop_last(), c)
    } else {
        s
    }
}

/// `s` without the characters `c` at both ends.
pub open spec fn strip(s: Seq<char>, c: char) -> Seq<char> {
    strip_end(strip_start(s, c), c)
}

/// The command name in the second field of a `stat` line: the field without
/// the parentheses around it.
pub open spec fn comm_of(field: Seq<char>) -> Seq<char> {
    strip(strip(field, '('), ')')
}

/// The score that an `oom_score` file gives: the number in it, or zero where
/// the file could not be read or holds no number.
pub open spec fn score_of(content: Option<&str>) -> i32 {
    match content {
        Some(c) => i32_or_zero(trim(c@)),
        None => 0,
    }
}

/// What is chosen does not depend on the order in which the candidates
/// came: two lists of the same candidates, no two of them with the same
/// process id, give the same chosen processes in the same order.
pub proof fn lemma_selection_ignores_order(
    strategy: KillStrategy,
    a: Seq<ProcessInfo>,
    b: Seq<ProcessInfo>,
    max: u32,
)
    requires
        a.to_multiset() == b.to_multiset(),
        distinct_pids(a),
    ensures
        selected(strategy, a, max) == selected(strategy, b, max),
{
    broadcast use vstd::seq_lib::group_to_multiset_ensures;

    let rank = rank_by(strategy);
    let sorted = stable_sorted(a, rank);
    crate::sorting::lemma_stable_sorted(a, rank);
    crate::sorting::lemma_stable_sorted(b, rank);
    assert(a.no_duplicates());
    a.lemma_multiset_has_no_duplicates();
    sorted.lemma_multiset_has_no_duplicates_conv();
    assert forall|i: int| 0 <= i < sorted.len() implies rank_is_unique(sorted, rank, i) by {
        assert forall|j: int| 0 <= j < sorted.len() && j != i implies rank(#[trigger] sorted[j])
            != rank(sorted[i]) by {
            assert(sorted[i] != sorted[j]);
            assert(sorted.to_multiset().contains(sorted[i]));
            assert(sorted.to_multiset().contains(sorted[j]));
            assert(a.contains(sorted[i]));
            assert(a.contains(sorted[j]));
            let m = choose|m: int| 0 <= m < a.len() && a[m] == sorted[i];
            let n = choose|n: int| 0 <= n < a.len() && a[n] == sorted[j];
            assert(m != n);
            assert(a[m].pid != a[n].pid);
            if rank(sorted[j]) == rank(sorted[i]) {
                lemma_rank_tells_apart(strategy, sorted[j], sorted[i]);
            }
        }
    }
    let k = selected(strategy, a, max).len() as int;
    lemma_sorting_ignores_order(a, b, rank, k);
    if max >= a.len() {
        assert(stable_sorted(a, rank).take(k) =~= stable_sorted(a, rank));
        assert(stable_sorted(b, rank).take(k) =~= stable_sorted(b, rank));
    }
}

/// Strips the characters `c` from both ends of `v`.
pub fn stripped(v: &Vec<char>, c: char) -> (r: Vec<char>)
    ensures
        r@ == strip(v@, c),
{
    let mut a: usize = 0;
    proof {
        assert(v@.skip(0) == v@);
    }
    while a < v.len() && v[a] == c
        invariant
            a <= v.len(),
            strip_start(v@.skip(a as int), c) == strip_start(v@, c),
        decreases v.len() - a,
    {
        assert(v@.skip(a as int).skip(1) == v@.skip(a + 1));
        a += 1;
    }
    let mut b: usize = v.len();
    proof {
        assert(v@.subrange(a as int, b as int) == v@.skip(a as int));
        assert(strip_start(v@.skip(a as int), c) == v@.skip(a as int));
    }
    while b > a && v[b - 1] == c
        invariant
            a <= b <= v.len(),
            strip_end(v@.subrange(a as int, b as int), c) == strip(v@, c),
        decreases b,
    {
        assert(v@.subrange(a as int, b as int).drop_last() == v@.subrange(a as int, b - 1));
        b -= 1;
    }
    slice_of(v, a, b)
}

/// The score that an `oom_score` file gives.
pub fn read_score(content: Option<&str>) -> (r: i32)
    ensures
        r == score_of(content),
{
    match content {
        Some(c) => parse_i32_or_zero(&trimmed(&chars_of(c))),
        None => 0,
    }
}

/// The rank of a process under a strategy.
fn rank_of(strategy: &KillStrategy, p: &ProcessInfo) -> (r: i128)
    ensures
        r == kill_rank(*strategy, *p),
{
    let key: i128 = match strategy {
        KillStrategy::HighestMemory => -(p.memory_usage as i128),
        KillStrategy::HighestOomScore => -(p.oom_score as i128),
        KillStrategy::LowestOomScore => p.oom_score as i128,
        KillStrategy::Oldest => p.start_time as i128,
        KillStrategy::Newest => -(p.start_time as i128),
        KillStrategy::CgroupTarget { .. } => -(p.memory_usage as i128),
    };
    key * 0x1_0000_0000 + (p.pid as i128 + 0x8000_0000)
}

/// What is known of the process `pid`, from the text of its `stat` file and,
/// where they could be read, of its `oom_score` and `oom_score_adj` files.
/// A `stat` line of fewer than 24 fields is a parse error. A field that
/// holds no number counts as zero.
pub fn parse_process_info(
    pid: i32,
    stat: &str,
    oom_score: Option<&str>,
    oom_score_adj: Option<&str>,
) -> (r: Result<ProcessInfo, OomdError>)
    ensures
        words(stat@).len() < 24 ==> r is Err && r->Err_0 is Parse,
        words(stat@).len() >= 24 ==> r is Ok && r->Ok_0.pid == pid && r->Ok_0.comm@ == comm_of(
            words(stat@)[1],
        ) && r->Ok_0.memory_usage == u64_or_zero(words(stat@)[22]) && r->Ok_0.start_time
            == u64_or_zero(words(stat@)[21]) && r->Ok_0.cpu_usage == capped(
            (u64_or_zero(words(stat@)[13]) + u64_or_zero(words(stat@)[14])) as nat,
        ) && r->Ok_0.oom_score == score_of(oom_score) && r->Ok_0.oom_score_adj == score_of(
            oom_score_adj,
        ),
{
    let w = split_words(&chars_of(stat));
    if w.len() < 24 {
        return Err(OomdError::Parse(String::from_str("Invalid stat format")));
    }
    proof {
        assert(texts(w@)[1] == w@[1]@);
        assert(texts(w@)[13] == w@[13]@);
        assert(texts(w@)[14] == w@[14]@);
        assert(texts(w@)[21] == w@[21]@);
        assert(texts(w@)[22] == w@[22]@);
    }
    let comm = stripped(&stripped(&w[1], '('), ')');
    let utime = parse_u64_or_zero(&w[13]);
    let stime = parse_u64_or_zero(&w[14]);
    let start_time = parse_u64_or_zero(&w[21]);
    let vsize = parse_u64_or_zero(&w[22]);
    Ok(
        ProcessInfo {
            pid,
            comm: string_of(&comm),
            memory_usage: vsize,
            cpu_usage: crate::cgroup::table::capped_sum(utime, stime),
            start_time,
            oom_score: read_score(oom_score),
            oom_score_adj: read_score(oom_score_adj),
        },
    )
}

/// Appends the process ids of one observation.
fn push_pids(out: &mut Vec<i32>, c: &CgroupContext)
    ensures
        final(out)@ == old(out)@ + pids_in(*c),
{
    match &c.pids {
        Some(v) => {
            let mut i: usize = 0;
            assert(out@ =~= old(out)@ + v@.take(0));
            while i < v.len()
                invariant
                    i <= v.len(),
                    out@ == old(out)@ + v@.take(i as int),
                decreases v.len() - i,
            {
                out.push(v[i]);
                assert(old(out)@ + v@.take(i + 1) =~= (old(out)@ + v@.take(i as int)).push(
                    v@[i as int],
                ));
                i += 1;
            }
            assert(v@.take(v.len() as int) =~= v@);
        },
        None => {
            assert(out@ =~= old(out)@ + Seq::<i32>::empty());
        },
    }
}

/// The process ids that a strategy looks at in a snapshot.
pub fn candidate_pids(strategy: &KillStrategy, context: &OomdContext) -> (r: Vec<i32>)
    ensures
        r@ == candidates(*strategy, *context),
{
    let mut out: Vec<i32> = Vec::new();
    match strategy {
        KillStrategy::CgroupTarget { cgroup_path } => {
            match context.get_cgroup(cgroup_path.as_str()) {
                Some(c) => {
                    push_pids(&mut out, c);
                    assert(out@ =~= pids_in(*c));
                },
                None => {},
            }
        },
        _ => {
            let n = context.cgroups.len();
            let ghost cs = context.cgroups.values();
            let mut i: usize = 0;
            assert(cs.take(0) =~= Seq::<CgroupContext>::empty());
            while i < n
                invariant
                    i <= n,
                    n == cs.len(),
                    cs == context.cgroups.values(),
                    out@ == all_pids(cs.take(i as int)),
                decreases n - i,
            {
                proof {
                    assert(cs.take(i + 1).drop_last() =~= cs.take(i as int));
                    assert(cs.take(i + 1).last() == cs[i as int]);
                }
                push_pids(&mut out, context.cgroups.value_at(i));
                i += 1;
            }
            assert(cs.take(n as int) =~= cs);
        },
    }
    out
}

/// Chooses the processes to kill: sorts `processes` by the strategy's rank
/// and keeps at most `max`.
pub fn select_targets(strategy: &KillStrategy, processes: Vec<ProcessInfo>, max: u32) -> (r: Vec<
    ProcessInfo,
>)
    ensures
        r@ == selected(*strategy, processes@, max),
{
    let mut ranks: Vec<i128> = Vec::new();
    let mut i: usize = 0;
    while i < processes.len()
        invariant
            i <= processes.len(),
            ranks@.len() == i,
            forall|k: int| 0 <= k < i ==> ranks@[k] == kill_rank(*strategy, #[trigger] processes@[k]),
        decreases processes.len() - i,
    {
        ranks.push(rank_of(strategy, &processes[i]));
        i += 1;
    }
    let ghost rank = rank_by(*strategy);
    assert forall|k: int| 0 <= k < processes@.len() implies ranks@[k] == rank(
        #[trigger] processes@[k],
    ) by {}
    let mut sorted = sort_by_ranks(processes, ranks, Ghost(rank));
    proof {
        crate::sorting::lemma_stable_sorted(processes@, rank);
    }
    if (max as usize) < sorted.len() {
        sorted.truncate(max as usize);
        assert(sorted@ =~= stable_sorted(processes@, rank).take(max as int));
    }
    sorted
}

/// A signal of the operating system, carried through unread.
#[verifier::external_type_specification]
#[verifier::external_body]
pub struct ExSignal(nix::sys::signal::Signal);

/// `nix::sys::signal::Signal::try_from`: the signal of a number, or an error
/// number where the platform has no such signal. Nothing is claimed of which
/// numbers are signals.
#[verifier::external_body]
fn signal_of(signo: i32) -> Result<nix::sys::signal::Signal, nix::errno::Errno> {
    nix::sys::signal::Signal::try_from(signo)
}

/// What a `KillStrategy` holds, with the path as its text.
pub enum StrategyView {
    HighestMemory,
    HighestOomScore,
    LowestOomScore,
    Oldest,
    Newest,
    CgroupTarget { cgroup_path: Seq<char> },
}

impl View for KillStrategy {
    type V = StrategyView;

    open spec fn view(&self) -> StrategyView {
        match *self {
            KillStrategy::HighestMemory => StrategyView::HighestMemory,
            KillStrategy::HighestOomScore => StrategyView::HighestOomScore,
            KillStrategy::LowestOomScore => StrategyView::LowestOomScore,
            KillStrategy::Oldest => StrategyView::Oldest,
            KillStrategy::Newest => StrategyView::Newest,
            KillStrategy::CgroupTarget { cgroup_path } => StrategyView::CgroupTarget {
                cgroup_path: cgroup_path@,
            },
        }
    }
}

/// The strategy that settings name. A name that is none of the six names
/// stands for the strategy `highest_memory`.
pub open spec fn strategy_named(name: Seq<char>, path: Seq<char>) -> StrategyView {
    if name == "highest_oom_score"@ {
        StrategyView::HighestOomScore
    } else if name == "lowest_oom_score"@ {
        StrategyView::LowestOomScore
    } else if name == "oldest"@ {
        StrategyView::Oldest
    } else if name == "newest"@ {
        StrategyView::Newest
    } else if name == "cgroup_target"@ {
        StrategyView::CgroupTarget { cgroup_path: path }
    } else {
        StrategyView::HighestMemory
    }
}

/// The name of a strategy in settings.
pub open spec fn strategy_name(strategy: StrategyView) -> Seq<char> {
    match strategy {
        StrategyView::HighestMemory => "highest_memory"@,
        StrategyView::HighestOomScore => "highest_oom_score"@,
        StrategyView::LowestOomScore => "lowest_oom_score"@,
        StrategyView::Oldest => "oldest"@,
        StrategyView::Newest => "newest"@,
        StrategyView::CgroupTarget { .. } => "cgroup_target"@,
    }
}

impl KillStrategy {
    /// The strategy that settings name.
    pub fn from_name(name: &str, path: String) -> (r: KillStrategy)
        ensures
            r@ == strategy_named(name@, path@),
    {
        let n = chars_of(name);
        if is_word(&n, "highest_oom_score") {
            KillStrategy::HighestOomScore
        } else if is_word(&n, "lowest_oom_score") {
            KillStrategy::LowestOomScore
        } else if is_word(&n, "oldest") {
            KillStrategy::Oldest
        } else if is_word(&n, "newest") {
            KillStrategy::Newest
        } else if is_word(&n, "cgroup_target") {
            KillStrategy::CgroupTarget { cgroup_path: path }
        } else {
            KillStrategy::HighestMemory
        }
    }

    /// The name of the strategy in settings.
    pub fn name(&self) -> (r: &'static str)
        ensures
            r@ == strategy_name(self@),
    {
        match self {
            KillStrategy::HighestMemory => "highest_memory",
            KillStrategy::HighestOomScore => "highest_oom_score",
            KillStrategy::LowestOomScore => "lowest_oom_score",
            KillStrategy::Oldest => "oldest",
            KillStrategy::Newest => "newest",
            KillStrategy::CgroupTarget { .. } => "cgroup_target",
        }
    }
}

/// A whole number as a value.
pub open spec fn number_of(n: i32) -> Value {
    if n >= 0 {
        Value::Unsigned(n as u64)
    } else {
        Value::Negative(n as i64)
    }
}

/// A whole number as a value.
pub fn number_value(n: i32) -> (r: Value)
    ensures
        r == number_of(n),
{
    if n >= 0 {
        Value::Unsigned(n as u64)
    } else {
        Value::Negative(n as i64)
    }
}

/// What is to be done with one chosen process.
#[derive(Debug)]
pub enum KillStep {
    /// Nothing: the run is a dry run.
    Skip { result: ActionResult },
    /// The signal is to be delivered to the process.
    Deliver { pid: i32, signal: nix::sys::signal::Signal },
}

/// The reason that a dry run gives for not killing a process.
pub open spec fn dry_run_reason(p: ProcessInfo) -> Seq<char> {
    "Dry run: would kill PID "@ + signed_text(p.pid as int) + " ("@ + p.comm@ + ")"@
}

/// The message of a kill that was delivered.
pub open spec fn killed_message(p: ProcessInfo, signal: i32) -> Seq<char> {
    "Killed PID "@ + signed_text(p.pid as int) + " ("@ + p.comm@ + ") with signal "@
        + signed_text(signal as int)
}

/// What the message of a kill that failed begins with.
pub open spec fn failed_heading(p: ProcessInfo) -> Seq<char> {
    "Failed to kill PID "@ + signed_text(p.pid as int) + ": "@
}

/// Whether the details tell an error text under `error`, and `message` is
/// the heading followed by that text.
pub open spec fn told_after(
    details: KeyedList<Value>,
    heading: Seq<char>,
    message: Seq<char>,
) -> bool {
    match view_under(details, "error"@) {
        Some(ValueView::Text(t)) => message == heading + t,
        _ => false,
    }
}

/// The memory that a result reports as freed: the detail `memory_freed` of
/// a success, nothing for any other result.
pub open spec fn freed_by(result: ActionResult) -> nat {
    match result {
        ActionResult::Success { details, .. } => match details.lookup("memory_freed"@) {
            Some(Value::Unsigned(n)) => n as nat,
            _ => 0,
        },
        _ => 0,
    }
}

/// The number of successes among the results.
pub open spec fn killed_count(results: Seq<ActionResult>) -> nat
    decreases results.len(),
{
    if results.len() == 0 {
        0
    } else {
        killed_count(results.drop_last()) + if results.last() is Success {
            1nat
        } else {
            0nat
        }
    }
}

/// The memory that the results report as freed, in all.
pub open spec fn freed_total(results: Seq<ActionResult>) -> nat
    decreases results.len(),
{
    if results.len() == 0 {
        0
    } else {
        freed_total(results.drop_last()) + freed_by(results.last())
    }
}

/// The names under which a run is booked differ from each other.
pub proof fn lemma_run_names()
    ensures
        "targets_found"@ != "killed_count"@,
        "targets_found"@ != "total_memory_freed"@,
        "killed_count"@ != "total_memory_freed"@,
{
    reveal_strlit("targets_found");
    reveal_strlit("killed_count");
    reveal_strlit("total_memory_freed");
    assert("targets_found"@.len() == 13);
    assert("killed_count"@.len() == 12);
    assert("total_memory_freed"@.len() == 18);
}

/// The names under which the settings are booked differ from each other.
pub proof fn lemma_setting_names()
    ensures
        "strategy"@ != "dry_run"@,
        "strategy"@ != "max_kill_count"@,
        "strategy"@ != "kill_signal"@,
        "dry_run"@ != "max_kill_count"@,
        "dry_run"@ != "kill_signal"@,
        "max_kill_count"@ != "kill_signal"@,
        "initialized"@ != "strategy"@,
        "initialized"@ != "dry_run"@,
        "initialized"@ != "max_kill_count"@,
        "initialized"@ != "kill_signal"@,
{
    reveal_strlit("strategy");
    reveal_strlit("dry_run");
    reveal_strlit("max_kill_count");
    reveal_strlit("kill_signal");
    reveal_strlit("initialized");
    assert("initialized"@.len() == 11);
    assert("initialized"@[0] == 'i');
    assert("kill_signal"@[0] == 'k');
    assert("strategy"@.len() == 8);
    assert("dry_run"@.len() == 7);
    assert("max_kill_count"@.len() == 14);
    assert("kill_signal"@.len() == 11);
}

/// The kill action.
#[derive(Debug)]
pub struct KillAction {
    pub base: BasePlugin,
    pub kill_strategy: KillStrategy,
    pub dry_run: bool,
    pub max_kill_count: u32,
    pub kill_signal: i32,
}

impl KillAction {
    /// The strategy that the settings of the plugin give, or the one it has.
    pub open spec fn configured_strategy(self, config: KeyedList<Value>) -> StrategyView {
        match setting_of::<String>(config, "strategy"@) {
            Some(name) => strategy_named(
                name@,
                match setting_of::<String>(config, "cgroup_path"@) {
                    Some(p) => p@,
                    None => Seq::empty(),
                },
            ),
            None => self.kill_strategy@,
        }
    }

    /// The number of processes to kill at most that the settings give, or
    /// the one that the plugin has.
    pub open spec fn configured_count(self, config: KeyedList<Value>) -> u32 {
        match setting_of::<u32>(config, "max_kill_count"@) {
            Some(n) => n,
            None => self.max_kill_count,
        }
    }

    /// The signal that the settings give, or the one that the plugin has.
    pub open spec fn configured_signal(self, config: KeyedList<Value>) -> i32 {
        match setting_of::<i32>(config, "kill_signal"@) {
            Some(n) => n,
            None => self.kill_signal,
        }
    }

    /// Whether the settings ask for a dry run, or the plugin does.
    pub open spec fn configured_dry_run(self, config: KeyedList<Value>) -> bool {
        match setting_of::<bool>(config, "dry_run"@) {
            Some(b) => b,
            None => self.dry_run,
        }
    }

    /// Whether `after` is `self` with the settings `config` taken: each
    /// setting that `config` gives in its kind is taken, the others stay;
    /// the status says that the plugin is initialized and, unless the count
    /// is zero, tells the four settings. Nothing else changes.
    pub open spec fn configured(self, after: KillAction, config: KeyedList<Value>) -> bool {
        &&& after.kill_strategy@ == self.configured_strategy(config)
        &&& after.dry_run == self.configured_dry_run(config)
        &&& after.max_kill_count == self.configured_count(config)
        &&& after.kill_signal == self.configured_signal(config)
        &&& after.base.config == config
        &&& self.base.same_but_settings(after.base)
        &&& view_under(after.base.status, "initialized"@) == Some(ValueView::Bool(true))
        &&& after.max_kill_count != 0 ==> view_under(after.base.status, "strategy"@) == Some(
            ValueView::Text(strategy_name(after.kill_strategy@)),
        ) && view_under(after.base.status, "dry_run"@) == Some(ValueView::Bool(after.dry_run))
            && view_under(after.base.status, "max_kill_count"@) == Some(
            ValueView::Unsigned(after.max_kill_count as u64),
        ) && view_under(after.base.status, "kill_signal"@) == Some(number_of(after.kill_signal)@)
        &&& forall|k: Seq<char>|
            k != "initialized"@ && (after.max_kill_count == 0 || (k != "strategy"@ && k
                != "dry_run"@ && k != "max_kill_count"@ && k != "kill_signal"@))
                ==> #[trigger] after.base.status.lookup(k) == self.base.status.lookup(k)
    }

    /// Whether `after` is `self` with one run booked in the status: the
    /// number of targets that were found, and where any process was killed,
    /// how many were and how much memory that frees (at most the largest
    /// `u64`). Nothing else changes, and a disabled action books nothing.
    pub open spec fn booked(
        self,
        after: KillAction,
        targets_found: usize,
        results: Seq<ActionResult>,
    ) -> bool {
        &&& self.base.same_but_status(after.base)
        &&& after.kill_strategy == self.kill_strategy
        &&& after.dry_run == self.dry_run
        &&& after.max_kill_count == self.max_kill_count
        &&& after.kill_signal == self.kill_signal
        &&& !self.base.enabled ==> after.base.status == self.base.status
        &&& self.base.enabled ==> after.base.status.lookup("targets_found"@) == Some(
            Value::Unsigned(targets_found as u64),
        )
        &&& self.base.enabled && targets_found > 0 && killed_count(results) > 0
            ==> after.base.status.lookup("killed_count"@) == Some(
            Value::Unsigned(killed_count(results) as u64),
        ) && after.base.status.lookup("total_memory_freed"@) == Some(
            Value::Unsigned(capped(freed_total(results))),
        )
        &&& self.base.enabled && (targets_found == 0 || killed_count(results) == 0)
            ==> after.base.status.lookup("killed_count"@) == self.base.status.lookup(
            "killed_count"@,
        ) && after.base.status.lookup("total_memory_freed"@) == self.base.status.lookup(
            "total_memory_freed"@,
        )
        &&& forall|k: Seq<char>|
            k != "targets_found"@ && k != "killed_count"@ && k != "total_memory_freed"@
                ==> #[trigger] after.base.status.lookup(k) == self.base.status.lookup(k)
    }

    /// A kill action that kills the one process that uses the most memory,
    /// with the signal 9.
    pub fn new() -> (r: KillAction)
        ensures
            r.base.name@ == "kill_action"@,
            r.base.version@ == "1.0.0"@,
            r.base.enabled,
            r.kill_strategy is HighestMemory,
            !r.dry_run,
            r.max_kill_count == 1,
            r.kill_signal == 9,
    {
        KillAction {
            base: BasePlugin::new("kill_action", "1.0.0", "Terminates processes to free memory"),
            kill_strategy: KillStrategy::default(),
            dry_run: false,
            max_kill_count: 1,
            kill_signal: 9,
        }
    }

    /// The same action with another strategy.
    pub fn with_strategy(self, strategy: KillStrategy) -> (r: KillAction)
        ensures
            r.kill_strategy == strategy,
            r.base == self.base,
            r.dry_run == self.dry_run,
            r.max_kill_count == self.max_kill_count,
            r.kill_signal == self.kill_signal,
    {
        let mut r = self;
        r.kill_strategy = strategy;
        r
    }

    /// The same action as a dry run or not.
    pub fn with_dry_run(self, dry_run: bool) -> (r: KillAction)
        ensures
            r.dry_run == dry_run,
            r.base == self.base,
            r.kill_strategy == self.kill_strategy,
            r.max_kill_count == self.max_kill_count,
            r.kill_signal == self.kill_signal,
    {
        let mut r = self;
        r.dry_run = dry_run;
        r
    }

    /// The same action with another number of processes to kill at most.
    pub fn with_max_kill_count(self, count: u32) -> (r: KillAction)
        ensures
            r.max_kill_count == count,
            r.base == self.base,
            r.kill_strategy == self.kill_strategy,
            r.dry_run == self.dry_run,
            r.kill_signal == self.kill_signal,
    {
        let mut r = self;
        r.max_kill_count = count;
        r
    }

    /// The same action with another signal.
    pub fn with_kill_signal(self, signal: i32) -> (r: KillAction)
        ensures
            r.kill_signal == signal,
            r.base == self.base,
            r.kill_strategy == self.kill_strategy,
            r.dry_run == self.dry_run,
            r.max_kill_count == self.max_kill_count,
    {
        let mut r = self;
        r.kill_signal = signal;
        r
    }

    /// The process ids that the action looks at in a snapshot.
    pub fn candidate_pids(&self, context: &OomdContext) -> (r: Vec<i32>)
        ensures
            r@ == candidates(self.kill_strategy, *context),
    {
        candidate_pids(&self.kill_strategy, context)
    }

    /// Chooses the processes to kill among those that could be looked at.
    pub fn find_targets(&self, processes: Vec<ProcessInfo>) -> (r: Vec<ProcessInfo>)
        ensures
            r@ == selected(self.kill_strategy, processes@, self.max_kill_count),
    {
        select_targets(&self.kill_strategy, processes, self.max_kill_count)
    }

    /// Takes the settings: `strategy` (with `cgroup_path` for a cgroup
    /// target), `dry_run`, `max_kill_count` and `kill_signal`. A setting that
    /// is missing or of another kind leaves what the plugin has. After that a
    /// count of zero is a configuration error; else the settings are booked
    /// in the status.
    pub fn configure(&mut self, config: KeyedList<Value>) -> (r: Result<(), OomdError>)
        ensures
            old(self).configured(*final(self), config),
            final(self).max_kill_count == 0 ==> r is Err && r->Err_0 is Config,
            final(self).max_kill_count != 0 ==> r is Ok,
    {
        let strategy = crate::plugins::base::read_setting::<String>(&config, "strategy");
        let path = crate::plugins::base::read_setting::<String>(&config, "cgroup_path");
        let dry_run = crate::plugins::base::read_setting::<bool>(&config, "dry_run");
        let count = crate::plugins::base::read_setting::<u32>(&config, "max_kill_count");
        let signal = crate::plugins::base::read_setting::<i32>(&config, "kill_signal");
        self.base.init(config);
        if let Some(name) = strategy {
            let p = match path {
                Some(p) => p,
                None => String::new(),
            };
            self.kill_strategy = KillStrategy::from_name(name.as_str(), p);
        }
        if let Some(b) = dry_run {
            self.dry_run = b;
        }
        if let Some(n) = count {
            self.max_kill_count = n;
        }
        if let Some(n) = signal {
            self.kill_signal = n;
        }
        proof {
            lemma_setting_names();
        }
        if self.max_kill_count == 0 {
            return Err(OomdError::Config(String::from_str("Max kill count must be at least 1")));
        }
        self.base.update_status(
            String::from_str("strategy"),
            Value::Text(String::from_str(self.kill_strategy.name())),
        );
        self.base.update_status(String::from_str("dry_run"), Value::Bool(self.dry_run));
        self.base.update_status(
            String::from_str("max_kill_count"),
            Value::Unsigned(self.max_kill_count as u64),
        );
        self.base.update_status(String::from_str("kill_signal"), number_value(self.kill_signal));
        Ok(())
    }

    /// The verdict on the configured signal, from what the platform says of
    /// its number: a number that is no signal is a configuration error.
    pub fn signal_verdict(check: Result<nix::sys::signal::Signal, nix::errno::Errno>) -> (r: Result<
        (),
        OomdError,
    >)
        ensures
            check is Ok ==> r is Ok,
            check is Err ==> r is Err && r->Err_0 is Config,
    {
        match check {
            Ok(_) => Ok(()),
            Err(_) => Err(OomdError::Config(String::from_str("Invalid signal number"))),
        }
    }

    /// Initializes the action from its settings: takes them as `configure`
    /// does, then asks the platform whether the configured number is a
    /// signal. A count of zero is a configuration error, and so is a number
    /// that the platform has no signal for.
    pub fn init(&mut self, config: KeyedList<Value>) -> (r: Result<(), OomdError>)
        ensures
            old(self).configured(*final(self), config),
            final(self).max_kill_count == 0 ==> r is Err,
            r is Err ==> r->Err_0 is Config,
    {
        match self.configure(config) {
            Ok(()) => Self::signal_verdict(signal_of(self.kill_signal)),
            Err(e) => Err(e),
        }
    }

    /// Decides what is to be done with a chosen process, given what the
    /// platform says of the configured signal number. A dry run skips the
    /// process whatever the signal; else the signal is to be delivered, and
    /// a number that is no signal is a configuration error.
    pub fn decide_kill(
        &self,
        process: &ProcessInfo,
        check: Result<nix::sys::signal::Signal, nix::errno::Errno>,
    ) -> (r: Result<KillStep, OomdError>)
        ensures
            self.dry_run ==> r is Ok && r->Ok_0 is Skip && r->Ok_0->result is Skipped
                && r->Ok_0->result->reason@ == dry_run_reason(*process),
            !self.dry_run && check is Ok ==> r is Ok && r->Ok_0 is Deliver && r->Ok_0->pid
                == process.pid && r->Ok_0->signal == check->Ok_0,
            !self.dry_run && check is Err ==> r is Err && r->Err_0 is Config,
    {
        if self.dry_run {
            let mut out: Vec<char> = Vec::new();
            write_str(&mut out, "Dry run: would kill PID ");
            write_i32(&mut out, process.pid);
            write_str(&mut out, " (");
            write_str(&mut out, process.comm.as_str());
            write_str(&mut out, ")");
            return Ok(
                KillStep::Skip { result: ActionResult::Skipped { reason: string_of(&out) } },
            );
        }
        match check {
            Ok(signal) => Ok(KillStep::Deliver { pid: process.pid, signal }),
            Err(_) => Err(OomdError::Config(String::from_str("Invalid signal number"))),
        }
    }

    /// Decides what is to be done with a chosen process. A dry run skips
    /// it; else the platform is asked for the signal of the configured
    /// number, and the signal is to be delivered where there is one.
    pub fn kill_process(&self, process: &ProcessInfo) -> (r: Result<KillStep, OomdError>)
        ensures
            self.dry_run ==> r is Ok && r->Ok_0 is Skip && r->Ok_0->result is Skipped
                && r->Ok_0->result->reason@ == dry_run_reason(*process),
            !self.dry_run ==> (r is Ok ==> r->Ok_0 is Deliver && r->Ok_0->pid == process.pid) && (
            r is Err ==> r->Err_0 is Config),
    {
        self.decide_kill(process, signal_of(self.kill_signal))
    }

    /// The result of a delivery that was tried: a success that tells the
    /// process, the signal and the memory that it frees, or a failure that
    /// tells the process and the error.
    pub fn kill_result(&self, process: &ProcessInfo, delivered: Result<(), nix::errno::Errno>) -> (r:
        ActionResult)
        ensures
            delivered is Ok ==> r is Success && r->Success_message@ == killed_message(
                *process,
                self.kill_signal,
            ) && r->Success_details.lookup("pid"@) == Some(number_of(process.pid))
                && view_under(r->Success_details, "comm"@) == Some(ValueView::Text(process.comm@))
                && r->Success_details.lookup("signal"@) == Some(number_of(self.kill_signal))
                && r->Success_details.lookup("memory_freed"@) == Some(
                Value::Unsigned(process.memory_usage),
            ) && freed_by(r) == process.memory_usage,
            delivered is Err ==> r is Failed && starts_with(
                r->Failed_error@,
                failed_heading(*process),
            ) && r->Failed_details.lookup("pid"@) == Some(number_of(process.pid))
                && view_under(r->Failed_details, "comm"@) == Some(ValueView::Text(process.comm@))
                && told_after(r->Failed_details, failed_heading(*process), r->Failed_error@),
    {
        proof {
            reveal_strlit("pid");
            reveal_strlit("comm");
            reveal_strlit("signal");
            reveal_strlit("memory_freed");
            reveal_strlit("error");
            assert("pid"@.len() == 3);
            assert("comm"@.len() == 4);
            assert("signal"@.len() == 6);
            assert("memory_freed"@.len() == 12);
            assert("error"@.len() == 5);
        }
        let mut details: KeyedList<Value> = KeyedList::new();
        details.insert(String::from_str("pid"), number_value(process.pid));
        details.insert(String::from_str("comm"), Value::Text(process.comm.clone()));
        match delivered {
            Ok(()) => {
                details.insert(String::from_str("signal"), number_value(self.kill_signal));
                details.insert(
                    String::from_str("memory_freed"),
                    Value::Unsigned(process.memory_usage),
                );
                let mut out: Vec<char> = Vec::new();
                write_str(&mut out, "Killed PID ");
                write_i32(&mut out, process.pid);
                write_str(&mut out, " (");
                write_str(&mut out, process.comm.as_str());
                write_str(&mut out, ") with signal ");
                write_i32(&mut out, self.kill_signal);
                ActionResult::Success { message: string_of(&out), details }
            },
            Err(e) => {
                let text = crate::error::errno_text(&e);
                details.insert(String::from_str("error"), Value::Text(text.clone()));
                let mut out: Vec<char> = Vec::new();
                write_str(&mut out, "Failed to kill PID ");
                write_i32(&mut out, process.pid);
                write_str(&mut out, ": ");
                let ghost head = out@;
                write_str(&mut out, text.as_str());
                assert(out@.take(head.len() as int) =~= head);
                assert(head =~= failed_heading(*process));
                ActionResult::Failed { error: string_of(&out), details }
            },
        }
    }

    /// Books one run in the status and lets the chain go on: the number of
    /// targets that were found, and where any process was killed, how many
    /// were and how much memory that frees (at most the largest `u64`). A
    /// disabled action books nothing.
    pub fn run(&mut self, targets_found: usize, results: &Vec<ActionResult>) -> (r: PluginRet)
        ensures
            r == PluginRet::Continue,
            old(self).booked(*final(self), targets_found, results@),
    {
        if !self.base.is_enabled() {
            return PluginRet::Continue;
        }
        proof {
            lemma_run_names();
        }
        self.base.update_status(
            String::from_str("targets_found"),
            Value::Unsigned(targets_found as u64),
        );
        if targets_found == 0 {
            return PluginRet::Continue;
        }
        let mut killed: usize = 0;
        let mut freed: u64 = 0;
        let mut i: usize = 0;
        assert(results@.take(0) =~= Seq::<ActionResult>::empty());
        while i < results.len()
            invariant
                i <= results.len(),
                killed == killed_count(results@.take(i as int)),
                killed <= i,
                freed == capped(freed_total(results@.take(i as int))),
            decreases results.len() - i,
        {
            proof {
                assert(results@.take(i + 1).drop_last() =~= results@.take(i as int));
                assert(results@.take(i + 1).last() == results@[i as int]);
            }
            match &results[i] {
                ActionResult::Success { details, .. } => {
                    killed += 1;
                    match details.get("memory_freed") {
                        Some(Value::Unsigned(n)) => {
                            freed = crate::cgroup::table::capped_sum(freed, *n);
                        },
                        _ => {},
                    }
                },
                _ => {},
            }
            i += 1;
        }
        assert(results@.take(results.len() as int) =~= results@);
        if killed > 0 {
            self.base.update_status(
                String::from_str("killed_count"),
                Value::Unsigned(killed as u64),
            );
            self.base.update_status(
                String::from_str("total_memory_freed"),
                Value::Unsigned(freed),
            );
        }
        PluginRet::Continue
    }

    /// Books one run as `run` does and reports that the action was
    /// executed.
    pub fn execute(&mut self, targets_found: usize, results: &Vec<ActionResult>) -> (r:
        ActionResult)
        ensures
            r is Success,
            r->Success_message@ == "Kill action executed"@,
            r->Success_details.keys() == Seq::<Seq<char>>::empty(),
            old(self).booked(*final(self), targets_found, results@),
    {
        self.run(targets_found, results);
        ActionResult::Success {
            message: String::from_str("Kill action executed"),
            details: KeyedList::new(),
        }
    }

    /// Whether the action can be executed: always.
    pub fn can_execute(&self) -> (r: bool)
        ensures
            r,
    {
        true
    }

    /// The status of the action: that of its base, and that it is an action
    /// of the kind `kill`.
    pub fn get_status(&self) -> (r: KeyedList<Value>)
        ensures
            view_under(r, "type"@) == Some(ValueView::Text("action"@)),
            view_under(r, "action_type"@) == Some(ValueView::Text("kill"@)),
            forall|k: Seq<char>|
                k != "type"@ && k != "action_type"@ ==> #[trigger] view_under(r, k)
                    == self.base.merged_status(k),
    {
        proof {
            reveal_strlit("type");
            reveal_strlit("action_type");
            assert("type"@.len() == 4);
            assert("action_type"@.len() == 11);
        }
        let mut status = self.base.get_status();
        let ghost s0 = status;
        status.insert(String::from_str("type"), Value::Text(String::from_str("action")));
        let ghost s1 = status;
        status.insert(String::from_str("action_type"), Value::Text(String::from_str("kill")));
        assert forall|k: Seq<char>| k != "type"@ && k != "action_type"@ implies #[trigger] view_under(
            status,
            k,
        ) == self.base.merged_status(k) by {
            assert(s1.lookup(k) == s0.lookup(k));
            assert(view_under(s0, k) == self.base.merged_status(k));
        }
        status
    }
}

/// The settings of a kill action as a record.
#[derive(Debug)]
pub struct KillActionConfig {
    pub strategy: String,
    pub dry_run: bool,
    pub max_kill_count: u32,
    pub kill_signal: i32,
    pub enabled: bool,
}

impl Default for KillActionConfig {
    /// One process, the one that uses the most memory, killed with the
    /// signal 9.
    fn default() -> (r: KillActionConfig)
        ensures
            r.strategy@ == "highest_memory"@,
            !r.dry_run,
            r.max_kill_count == 1,
            r.kill_signal == 9,
            r.enabled,
    {
        KillActionConfig {
            strategy: String::from_str("highest_memory"),
            dry_run: false,
            max_kill_count: 1,
            kill_signal: 9,
            enabled: true,
        }
    }
}

} // verus!
