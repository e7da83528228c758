//! The counters and observations that the cached runner reports, and which decision
//! bumps which.

use crate::lookup::LookupVerdict;
use crate::run::{RunOutcome, SpeculationWinner};
use crate::write_back::WriteError;
use vstd::prelude::*;

verus! {

/// A counter.
#[derive(Clone, Copy, Debug, PartialEq, Eq, Hash, Structural)]
pub enum Metric {
    RemoteCacheRequests,
    RemoteCacheRequestsCached,
    RemoteCacheRequestsUncached,
    RemoteCacheReadErrors,
    RemoteCacheRequestTimeouts,
    RemoteCacheWriteAttempts,
    RemoteCacheWriteSuccesses,
    RemoteCacheWriteErrors,
    RemoteCacheSpeculationLocalCompletedFirst,
    RemoteCacheSpeculationRemoteCompletedFirst,
    RemoteCacheTotalTimeSavedMs,
}

/// A quantity that is observed, one sample at a time.
#[derive(Clone, Copy, Debug, PartialEq, Eq, Hash, Structural)]
pub enum ObservationMetric {
    RemoteCacheGetActionResultTimeMicros,
    RemoteCacheTimeSavedMs,
}

/// The counter that a lookup bumps when it ends.
pub fn lookup_metric(verdict: &LookupVerdict) -> (metric: Metric)
    ensures
        metric == match verdict {
            LookupVerdict::Cached(_) => Metric::RemoteCacheRequestsCached,
            LookupVerdict::Uncached => Metric::RemoteCacheRequestsUncached,
            LookupVerdict::Failed(_) => Metric::RemoteCacheReadErrors,
        },
{
    match verdict {
        LookupVerdict::Cached(_) => Metric::RemoteCacheRequestsCached,
        LookupVerdict::Uncached => Metric::RemoteCacheRequestsUncached,
        LookupVerdict::Failed(_) => Metric::RemoteCacheReadErrors,
    }
}

/// The counter that a write-back bumps when it ends, beside the one for the attempt.
pub fn write_metric(outcome: &Result<(), WriteError>) -> (metric: Metric)
    ensures
        metric == match outcome {
            Ok(_) => Metric::RemoteCacheWriteSuccesses,
            Err(_) => Metric::RemoteCacheWriteErrors,
        },
{
    match outcome {
        Ok(_) => Metric::RemoteCacheWriteSuccesses,
        Err(_) => Metric::RemoteCacheWriteErrors,
    }
}

/// The counter for the side of the speculation that completed first.
pub open spec fn winner_metric(winner: SpeculationWinner) -> Metric {
    match winner {
        SpeculationWinner::RemoteFirst => Metric::RemoteCacheSpeculationRemoteCompletedFirst,
        SpeculationWinner::LocalFirst => Metric::RemoteCacheSpeculationLocalCompletedFirst,
    }
}

/// The counters that the end of a request bumps, and by how much: one for the side that
/// completed first, where the cache was looked up, and the milliseconds that a hit saved,
/// where they are known.
pub open spec fn outcome_counters(
    winner: Option<SpeculationWinner>,
    time_saved_millis: Option<u64>,
) -> Seq<(Metric, u64)> {
    let first = match winner {
        Some(w) => seq![(winner_metric(w), 1u64)],
        None => Seq::empty(),
    };
    let saved = match time_saved_millis {
        Some(millis) => seq![(Metric::RemoteCacheTotalTimeSavedMs, millis)],
        None => Seq::empty(),
    };
    first + saved
}

impl RunOutcome {
    /// The counters to bump at the end of the request.
    pub fn counters(&self) -> (counters: Vec<(Metric, u64)>)
        ensures
            counters@ == outcome_counters(self.winner, self.time_saved_millis),
    {
        let mut counters: Vec<(Metric, u64)> = Vec::new();
        match self.winner {
            Some(SpeculationWinner::RemoteFirst) => {
                counters.push((Metric::RemoteCacheSpeculationRemoteCompletedFirst, 1));
            },
            Some(SpeculationWinner::LocalFirst) => {
                counters.push((Metric::RemoteCacheSpeculationLocalCompletedFirst, 1));
            },
            None => {},
        }
        match self.time_saved_millis {
            Some(millis) => {
                counters.push((Metric::RemoteCacheTotalTimeSavedMs, millis));
            },
            None => {},
        }
        assert(counters@ =~= outcome_counters(self.winner, self.time_saved_millis));
        counters
    }

    /// The sample of saved time to record at the end of the request, if any.
    pub fn observation(&self) -> (sample: Option<(ObservationMetric, u64)>)
        ensures
            sample == match self.time_saved_millis {
                Some(millis) => Some((ObservationMetric::RemoteCacheTimeSavedMs, millis)),
                None => None,
            },
    {
        match self.time_saved_millis {
            Some(millis) => Some((ObservationMetric::RemoteCacheTimeSavedMs, millis)),
            None => None,
        }
    }
}

} // verus!
