//! The chains of one tick: the detectors run in order until one stops the
//! chain, and where one did the actions run in order until one stops theirs.
//!
//! The caller runs the plugins; what is here says, after each run, which
//! plugin is next. A plugin that failed or ran out of time has not stopped
//! its chain.

use crate::model::PluginRet;
use vstd::prelude::*;

verus! {

/// How a run of a plugin ended.
#[derive(Debug, Clone, Copy, PartialEq, Eq, Structural)]
pub enum RunOutcome {
    /// The plugin returned.
    Returned(PluginRet),
    /// The plugin reported an error.
    Failed,
    /// The plugin did not return within its time and was cancelled.
    TimedOut,
}

/// What comes next in a chain.
#[derive(Debug, Clone, Copy, PartialEq, Eq, Structural)]
pub enum ChainStep {
    /// The plugin at the index is to be run.
    Run(usize),
    /// A plugin stopped the chain.
    Stopped,
    /// Every plugin ran and none stopped the chain.
    Exhausted,
}

/// Whether an outcome stops its chain.
pub open spec fn stops(outcome: RunOutcome) -> bool {
    outcome == RunOutcome::Returned(PluginRet::Stop)
}

/// Whether an outcome counts as a failure of the plugin.
pub open spec fn fails(outcome: RunOutcome) -> bool {
    outcome == RunOutcome::Failed || outcome == RunOutcome::TimedOut
}

/// The index of the first outcome that stops the chain, or the number of
/// outcomes where none does.
pub open spec fn first_stop(outcomes: Seq<RunOutcome>) -> int
    decreases outcomes.len(),
{
    if outcomes.len() == 0 || stops(outcomes[0]) {
        0
    } else {
        1 + first_stop(outcomes.skip(1))
    }
}

/// The step after the plugin at `index` of a chain of `len` plugins ran
/// with `outcome`.
pub open spec fn step_after(index: usize, len: usize, outcome: RunOutcome) -> ChainStep {
    if stops(outcome) {
        ChainStep::Stopped
    } else if index + 1 < len {
        ChainStep::Run((index + 1) as usize)
    } else {
        ChainStep::Exhausted
    }
}

/// The steps that a chain takes where its plugins, were they run, would end
/// with `outcomes`: the step after `done` plugins have run without a stop.
pub open spec fn step_at(outcomes: Seq<RunOutcome>, done: int) -> ChainStep {
    if done < outcomes.len() {
        ChainStep::Run(done as usize)
    } else {
        ChainStep::Exhausted
    }
}

/// The first step of a chain of `len` plugins.
pub fn start_chain(len: usize) -> (r: ChainStep)
    ensures
        r == if len > 0 {
            ChainStep::Run(0)
        } else {
            ChainStep::Exhausted
        },
{
    if len > 0 {
        ChainStep::Run(0)
    } else {
        ChainStep::Exhausted
    }
}

/// The step after the plugin at `index` of a chain of `len` plugins ran:
/// a stop ends the chain; anything else, a failure too, lets the next plugin
/// run.
pub fn next_step(index: usize, len: usize, outcome: RunOutcome) -> (r: ChainStep)
    requires
        index < len,
    ensures
        r == step_after(index, len, outcome),
{
    match outcome {
        RunOutcome::Returned(PluginRet::Stop) => ChainStep::Stopped,
        _ => if index + 1 < len {
            ChainStep::Run(index + 1)
        } else {
            ChainStep::Exhausted
        },
    }
}

/// Whether an outcome is counted as a failure of the plugin.
pub fn is_failure(outcome: RunOutcome) -> (r: bool)
    ensures
        r == fails(outcome),
{
    match outcome {
        RunOutcome::Returned(_) => false,
        RunOutcome::Failed => true,
        RunOutcome::TimedOut => true,
    }
}

/// Whether the actions run after the detectors: where a detector stopped
/// its chain.
pub fn actions_follow(detectors: ChainStep) -> (r: bool)
    ensures
        r == (detectors == ChainStep::Stopped),
{
    match detectors {
        ChainStep::Stopped => true,
        _ => false,
    }
}

/// No outcome before the first stop stops the chain, and the outcome at
/// the first stop does, where there is one.
pub proof fn lemma_first_stop(outcomes: Seq<RunOutcome>)
    ensures
        0 <= first_stop(outcomes) <= outcomes.len(),
        forall|i: int| 0 <= i < first_stop(outcomes) ==> !stops(#[trigger] outcomes[i]),
        first_stop(outcomes) < outcomes.len() ==> stops(outcomes[first_stop(outcomes)]),
    decreases outcomes.len(),
{
    if outcomes.len() == 0 || stops(outcomes[0]) {
    } else {
        lemma_first_stop(outcomes.skip(1));
        assert forall|i: int| 0 <= i < first_stop(outcomes) implies !stops(
            #[trigger] outcomes[i],
        ) by {
            if i > 0 {
                assert(outcomes[i] == outcomes.skip(1)[i - 1]);
            }
        }
        if first_stop(outcomes) < outcomes.len() {
            assert(outcomes[first_stop(outcomes)] == outcomes.skip(1)[first_stop(
                outcomes.skip(1),
            )]);
        }
    }
}

/// The first stop wins: following the steps from the start, the plugins of
/// a chain run in order up to the first that stops the chain and none after
/// it. Before the first stop each step runs the next plugin; the step after
/// the first stop is `Stopped`; and without a stop the chain is exhausted
/// after its last plugin.
pub proof fn lemma_first_stop_wins(outcomes: Seq<RunOutcome>, i: int)
    requires
        0 <= i < outcomes.len(),
        i <= first_stop(outcomes),
        outcomes.len() <= usize::MAX,
    ensures
        i < first_stop(outcomes) ==> step_after(
            i as usize,
            outcomes.len() as usize,
            outcomes[i],
        ) == step_at(outcomes, i + 1),
        i == first_stop(outcomes) ==> step_after(i as usize, outcomes.len() as usize, outcomes[i])
            == ChainStep::Stopped,
{
    lemma_first_stop(outcomes);
}

} // verus!
