//! One request: the race between the cache lookup and the downstream runner, told as a
//! state machine. The caller starts the work, waits as the machine says, and reports each
//! completion; the machine decides whose result is returned and whether it is written back.

use crate::result::{time_saved_millis, ExecutionResult, ProcessError};
use crate::result::CacheScope;
use crate::runner::{plan_for, RunPlan};
use vstd::prelude::*;

verus! {

/// Where a request stands.
#[derive(Clone, Copy, Debug, PartialEq, Eq, Structural)]
pub enum RunPhase {
    /// Lookup and downstream are both under way; only the lookup may complete the request.
    HeadStart,
    /// The speculation delay is over: whichever of the two completes next decides.
    Racing,
    /// Only the downstream runner is awaited.
    AwaitingDownstream,
    /// The result has been handed out.
    Finished,
}

/// Which side of the speculation completed first.
#[derive(Clone, Copy, Debug, PartialEq, Eq, Structural)]
pub enum SpeculationWinner {
    RemoteFirst,
    LocalFirst,
}

/// A completion that the caller reports to the machine.
#[derive(Debug, PartialEq, Eq)]
pub enum RunEvent {
    /// The cache lookup completed after `elapsed_nanos`, with a usable result or without.
    LookupCompleted { cached: Option<ExecutionResult>, elapsed_nanos: u128 },
    /// The speculation delay is over.
    DelayElapsed,
    /// The downstream runner completed.
    DownstreamCompleted(Result<ExecutionResult, ProcessError>),
}

/// How a request ended.
#[derive(Debug, PartialEq, Eq)]
pub struct RunOutcome {
    /// What the caller of the request receives.
    pub result: Result<ExecutionResult, ProcessError>,
    /// The result came from the cache.
    pub hit: bool,
    /// The result is to be written to the cache, detached from the request.
    pub write_back: bool,
    /// Which side completed first, where the cache was looked up.
    pub winner: Option<SpeculationWinner>,
    /// The time that a hit saved, in milliseconds, where it is known.
    pub time_saved_millis: Option<u64>,
}

/// What the caller does next.
#[derive(Debug, PartialEq, Eq)]
pub enum RunAction {
    /// Wait for the lookup or for the end of the speculation delay.
    AwaitLookupOrDelay,
    /// Wait for the lookup or for the downstream runner.
    AwaitLookupOrDownstream,
    /// Wait for the downstream runner; a lookup still under way is abandoned.
    AwaitDownstream,
    /// Return the result and drop whatever is still under way.
    Finish(RunOutcome),
    /// The request is over: there is nothing to do.
    Nothing,
}

impl RunAction {
    /// The action keeps a cache lookup under way.
    pub open spec fn awaits_lookup(self) -> bool {
        self is AwaitLookupOrDelay || self is AwaitLookupOrDownstream
    }
}

impl RunPhase {
    /// A cache lookup is under way in this phase.
    pub open spec fn awaits_lookup(self) -> bool {
        self == RunPhase::HeadStart || self == RunPhase::Racing
    }
}

/// The state of one request.
#[derive(Clone, Debug, PartialEq, Eq)]
pub struct Run {
    pub plan: RunPlan,
    pub phase: RunPhase,
    /// Which side has completed first, once one has.
    pub winner: Option<SpeculationWinner>,
}

/// A cached result is used only if it succeeded or the plan caches failures.
pub open spec fn usable_hit(plan: RunPlan, cached: Option<ExecutionResult>) -> bool {
    match cached {
        Some(r) => r.exit_code == 0 || plan.failures_cached,
        None => false,
    }
}

/// The outcome of a request that the cache answered after `elapsed_nanos`.
pub open spec fn hit_outcome(cached: ExecutionResult, elapsed_nanos: u128) -> RunOutcome {
    RunOutcome {
        result: Ok(cached),
        hit: true,
        write_back: false,
        winner: Some(SpeculationWinner::RemoteFirst),
        time_saved_millis: time_saved_millis(cached.metadata.total_elapsed_nanos, elapsed_nanos),
    }
}

/// The outcome of a request that the downstream runner answered.
pub open spec fn downstream_outcome(
    plan: RunPlan,
    result: Result<ExecutionResult, ProcessError>,
    winner: Option<SpeculationWinner>,
) -> RunOutcome {
    RunOutcome {
        result,
        hit: false,
        write_back: match result {
            Ok(r) => plan.writes_back(false, r.exit_code),
            Err(_) => false,
        },
        winner,
        time_saved_millis: None,
    }
}

/// The state and the action that follow when `event` is reported in state `run`.
///
/// An event that the state does not wait for changes nothing: in particular the
/// downstream runner cannot complete a request before the speculation delay is over, and
/// a lookup that completes after the request is discarded.
pub open spec fn next(run: Run, event: RunEvent) -> (Run, RunAction) {
    match run.phase {
        RunPhase::HeadStart | RunPhase::Racing => match event {
            RunEvent::LookupCompleted { cached, elapsed_nanos } => if usable_hit(run.plan, cached) {
                (
                    Run {
                        phase: RunPhase::Finished,
                        winner: Some(SpeculationWinner::RemoteFirst),
                        ..run
                    },
                    RunAction::Finish(hit_outcome(cached->0, elapsed_nanos)),
                )
            } else {
                (
                    Run {
                        phase: RunPhase::AwaitingDownstream,
                        winner: Some(SpeculationWinner::RemoteFirst),
                        ..run
                    },
                    RunAction::AwaitDownstream,
                )
            },
            RunEvent::DelayElapsed => (
                Run { phase: RunPhase::Racing, ..run },
                RunAction::AwaitLookupOrDownstream,
            ),
            RunEvent::DownstreamCompleted(result) => if run.phase == RunPhase::Racing {
                (
                    Run {
                        phase: RunPhase::Finished,
                        winner: Some(SpeculationWinner::LocalFirst),
                        ..run
                    },
                    RunAction::Finish(
                        downstream_outcome(run.plan, result, Some(SpeculationWinner::LocalFirst)),
                    ),
                )
            } else {
                (run, RunAction::AwaitLookupOrDelay)
            },
        },
        RunPhase::AwaitingDownstream => match event {
            RunEvent::DownstreamCompleted(result) => (
                Run { phase: RunPhase::Finished, ..run },
                RunAction::Finish(downstream_outcome(run.plan, result, run.winner)),
            ),
            _ => (run, RunAction::AwaitDownstream),
        },
        RunPhase::Finished => (run, RunAction::Nothing),
    }
}

/// The state in which a request under `plan` begins, and the first action.
pub open spec fn initial(plan: RunPlan) -> (Run, RunAction) {
    if plan.speculate {
        (Run { plan, phase: RunPhase::HeadStart, winner: None }, RunAction::AwaitLookupOrDelay)
    } else {
        (
            Run { plan, phase: RunPhase::AwaitingDownstream, winner: None },
            RunAction::AwaitDownstream,
        )
    }
}

impl Run {
    /// Begins a request. Where the plan speculates, the caller starts the lookup and the
    /// downstream runner together; otherwise it starts the downstream runner alone.
    pub fn start(plan: RunPlan) -> (r: (Run, RunAction))
        ensures
            r == initial(plan),
    {
        if plan.speculate {
            (Run { plan, phase: RunPhase::HeadStart, winner: None }, RunAction::AwaitLookupOrDelay)
        } else {
            (
                Run { plan, phase: RunPhase::AwaitingDownstream, winner: None },
                RunAction::AwaitDownstream,
            )
        }
    }

    fn finish_downstream(
        &mut self,
        result: Result<ExecutionResult, ProcessError>,
        winner: Option<SpeculationWinner>,
    ) -> (action: RunAction)
        ensures
            *final(self) == (Run { phase: RunPhase::Finished, winner, ..*old(self) }),
            action == RunAction::Finish(downstream_outcome(old(self).plan, result, winner)),
    {
        let write_back = match &result {
            Ok(r) => self.plan.should_write_back(false, r.exit_code),
            Err(_) => false,
        };
        self.phase = RunPhase::Finished;
        self.winner = winner;
        RunAction::Finish(
            RunOutcome { result, hit: false, write_back, winner, time_saved_millis: None },
        )
    }

    /// Takes in a completion and says what to do next.
    pub fn step(&mut self, event: RunEvent) -> (action: RunAction)
        ensures
            (*final(self), action) == next(*old(self), event),
    {
        match self.phase {
            RunPhase::HeadStart | RunPhase::Racing => match event {
                RunEvent::LookupCompleted { cached, elapsed_nanos } => {
                    self.winner = Some(SpeculationWinner::RemoteFirst);
                    match cached {
                        Some(r) => {
                            if r.exit_code == 0 || self.plan.failures_cached {
                                self.phase = RunPhase::Finished;
                                return RunAction::Finish(
                                    RunOutcome {
                                        result: Ok(r),
                                        hit: true,
                                        write_back: false,
                                        winner: Some(SpeculationWinner::RemoteFirst),
                                        time_saved_millis: r.metadata.time_saved_millis(
                                            elapsed_nanos,
                                        ),
                                    },
                                );
                            }
                        },
                        None => {},
                    }
                    self.phase = RunPhase::AwaitingDownstream;
                    RunAction::AwaitDownstream
                },
                RunEvent::DelayElapsed => {
                    self.phase = RunPhase::Racing;
                    RunAction::AwaitLookupOrDownstream
                },
                RunEvent::DownstreamCompleted(result) => {
                    if self.phase == RunPhase::Racing {
                        self.finish_downstream(result, Some(SpeculationWinner::LocalFirst))
                    } else {
                        RunAction::AwaitLookupOrDelay
                    }
                },
            },
            RunPhase::AwaitingDownstream => match event {
                RunEvent::DownstreamCompleted(result) => {
                    let winner = self.winner;
                    self.finish_downstream(result, winner)
                },
                _ => RunAction::AwaitDownstream,
            },
            RunPhase::Finished => RunAction::Nothing,
        }
    }
}

/// The state reached from `run` once the first `n` of `events` have been reported.
pub open spec fn state_after(run: Run, events: Seq<RunEvent>, n: int) -> Run
    decreases n,
{
    if n <= 0 {
        run
    } else {
        next(state_after(run, events, n - 1), events[n - 1]).0
    }
}

/// The action with which the machine answers the event at index `i` of `events`.
pub open spec fn action_at(run: Run, events: Seq<RunEvent>, i: int) -> RunAction {
    next(state_after(run, events, i), events[i]).1
}

proof fn lemma_without_lookup(plan: RunPlan, events: Seq<RunEvent>, n: int)
    requires
        !plan.speculate,
        0 <= n <= events.len(),
    ensures
        !state_after(initial(plan).0, events, n).phase.awaits_lookup(),
        state_after(initial(plan).0, events, n).plan == plan,
    decreases n,
{
    if n > 0 {
        lemma_without_lookup(plan, events, n - 1);
    }
}

/// A request of a runner whose reads are switched off never waits for a cache lookup,
/// whatever is reported to it and in whatever order; and when it finishes, it hands out,
/// not as a hit, exactly the result with which the downstream runner just completed.
pub proof fn law_reads_disabled(
    cache_write: bool,
    scope: CacheScope,
    events: Seq<RunEvent>,
    i: int,
)
    requires
        0 <= i < events.len(),
    ensures
        ({
            let (run, first) = initial(plan_for(false, cache_write, scope));
            &&& !first.awaits_lookup()
            &&& !action_at(run, events, i).awaits_lookup()
            &&& match action_at(run, events, i) {
                RunAction::Finish(outcome) => !outcome.hit && events[i]
                    == RunEvent::DownstreamCompleted(outcome.result),
                _ => true,
            }
        }),
{
    lemma_without_lookup(plan_for(false, cache_write, scope), events, i);
}

/// A request is written back only if its result did not come from the cache and the
/// downstream runner succeeded in producing one, the plan writes, and the exit code is
/// zero or the scope caches failures. In particular a result with a nonzero exit code is
/// never written back under a scope other than `Always`.
pub proof fn law_write_back(
    cache_read: bool,
    cache_write: bool,
    scope: CacheScope,
    run: Run,
    event: RunEvent,
)
    requires
        run.plan == plan_for(cache_read, cache_write, scope),
    ensures
        match next(run, event).1 {
            RunAction::Finish(outcome) => match outcome.result {
                Ok(r) => {
                    &&& outcome.write_back ==> !outcome.hit && cache_write && scope
                        != CacheScope::Never
                    &&& r.exit_code != 0 && scope != CacheScope::Always ==> !outcome.write_back
                },
                Err(_) => !outcome.write_back,
            },
            _ => true,
        },
{
}

/// A result is handed out as a hit only if it succeeded or the scope caches failures.
pub proof fn law_hit_accepted(run: Run, event: RunEvent)
    ensures
        match next(run, event).1 {
            RunAction::Finish(outcome) => outcome.hit ==> match outcome.result {
                Ok(r) => r.exit_code == 0 || run.plan.failures_cached,
                Err(_) => false,
            },
            _ => true,
        },
{
}

/// The later of two moments.
pub open spec fn later(a: nat, b: nat) -> nat {
    if a >= b {
        a
    } else {
        b
    }
}

/// The completions of a speculating request in the order in which they are reported, when
/// the lookup takes `lookup` and the downstream runner `downstream` units of time and the
/// speculation delay is `delay`. The downstream runner is not waited for before the delay
/// is over, so its completion is seen at the later of the two.
pub open spec fn reported(
    lookup: nat,
    downstream: nat,
    delay: nat,
    cached: Option<ExecutionResult>,
    result: Result<ExecutionResult, ProcessError>,
) -> Seq<RunEvent> {
    let found = RunEvent::LookupCompleted { cached, elapsed_nanos: lookup as u128 };
    let ran = RunEvent::DownstreamCompleted(result);
    if lookup <= delay {
        seq![found, RunEvent::DelayElapsed, ran]
    } else if lookup < later(downstream, delay) {
        seq![RunEvent::DelayElapsed, found, ran]
    } else {
        seq![RunEvent::DelayElapsed, ran, found]
    }
}

/// The speculation is won by whichever comes first: the completion of the lookup, or the
/// completion of the downstream runner once the speculation delay is over. Where the
/// lookup comes first with a usable result, that result is the one handed out.
pub proof fn law_speculation_winner(
    plan: RunPlan,
    lookup: nat,
    downstream: nat,
    delay: nat,
    cached: Option<ExecutionResult>,
    result: Result<ExecutionResult, ProcessError>,
)
    requires
        plan.speculate,
        lookup != later(downstream, delay),
    ensures
        ({
            let events = reported(lookup, downstream, delay, cached, result);
            let end = state_after(initial(plan).0, events, 3);
            let remote_first = lookup < later(downstream, delay);
            &&& end.phase == RunPhase::Finished
            &&& end.winner == Some(
                if remote_first {
                    SpeculationWinner::RemoteFirst
                } else {
                    SpeculationWinner::LocalFirst
                },
            )
            &&& exists|i: int|
                0 <= i < 3 && match #[trigger] action_at(initial(plan).0, events, i) {
                    RunAction::Finish(outcome) => {
                        &&& outcome.winner == end.winner
                        &&& outcome.hit == (remote_first && usable_hit(plan, cached))
                        &&& outcome.result == if outcome.hit {
                            Ok(cached->0)
                        } else {
                            result
                        }
                    },
                    _ => false,
                }
        }),
{
    let events = reported(lookup, downstream, delay, cached, result);
    let run = initial(plan).0;
    reveal_with_fuel(state_after, 4);
    let s1 = state_after(run, events, 1);
    let s2 = state_after(run, events, 2);
    let s3 = state_after(run, events, 3);
    assert(s1 == next(run, events[0]).0);
    assert(s2 == next(s1, events[1]).0);
    assert(s3 == next(s2, events[2]).0);
    if lookup <= delay {
        if usable_hit(plan, cached) {
            assert(action_at(run, events, 0) is Finish);
        } else {
            assert(action_at(run, events, 2) is Finish);
        }
    } else if lookup < later(downstream, delay) {
        if usable_hit(plan, cached) {
            assert(action_at(run, events, 1) is Finish);
        } else {
            assert(action_at(run, events, 2) is Finish);
        }
    } else {
        assert(action_at(run, events, 1) is Finish);
    }
}

} // verus!
