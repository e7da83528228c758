//! The result of executing a process, and the per-request policies that govern caching it.

use crate::digest::Digest;
use vstd::prelude::*;

verus! {

/// Which results of a request may be stored in, and served from, the cache.
#[derive(Clone, Copy, Debug, PartialEq, Eq, Hash, Structural)]
pub enum CacheScope {
    /// Successes and failures alike.
    Always,
    /// Only results with exit code zero.
    Successful,
    /// Nothing.
    Never,
}

impl CacheScope {
    /// Whether results with a nonzero exit code are cacheable.
    pub fn failures_cached(self) -> (r: bool)
        ensures
            r == (self == CacheScope::Always),
    {
        match self {
            CacheScope::Always => true,
            _ => false,
        }
    }

    /// Whether the remote cache takes part in the request at all.
    pub fn uses_remote_cache(self) -> (r: bool)
        ensures
            r == (self == CacheScope::Always || self == CacheScope::Successful),
    {
        match self {
            CacheScope::Always => true,
            CacheScope::Successful => true,
            CacheScope::Never => false,
        }
    }
}

/// How far the content referenced by a cached result is checked before the result is used.
#[derive(Clone, Copy, Debug, PartialEq, Eq, Hash, Structural)]
pub enum CacheContentBehavior {
    /// Trust the server.
    Defer,
    /// Fetch every referenced blob.
    Fetch,
    /// Confirm that every referenced blob exists, without fetching it.
    Validate,
}

/// Where a result came from.
#[derive(Clone, Copy, Debug, PartialEq, Eq, Hash, Structural)]
pub enum ResultSource {
    RanLocally,
    RanRemotely,
    HitLocally,
    HitRemotely,
}

/// The platform a process ran on.
#[derive(Clone, Copy, Debug, PartialEq, Eq, Hash, Structural)]
pub enum Platform {
    LinuxX86_64,
    LinuxArm64,
    MacosX86_64,
    MacosArm64,
}

/// What is known about how a result was produced.
#[derive(Clone, Copy, Debug, PartialEq, Eq, Hash)]
pub struct ExecutionMetadata {
    /// Wall time of the execution that produced the result, in nanoseconds, where it was
    /// recorded.
    pub total_elapsed_nanos: Option<u128>,
    pub platform: Platform,
    pub source: ResultSource,
}

pub const NANOS_PER_MILLI: u128 = 1_000_000;

/// The time a cache hit saved: the recorded wall time less the time the lookup took, and
/// zero where the lookup took longer. Nothing where the wall time was not recorded.
pub open spec fn time_saved_nanos(total_elapsed_nanos: Option<u128>, lookup_elapsed_nanos: u128)
    -> Option<u128> {
    match total_elapsed_nanos {
        Some(total) => Some(
            if total >= lookup_elapsed_nanos {
                (total - lookup_elapsed_nanos) as u128
            } else {
                0u128
            },
        ),
        None => None,
    }
}

/// The saved time in whole milliseconds, reduced to 64 bits.
pub open spec fn time_saved_millis(total_elapsed_nanos: Option<u128>, lookup_elapsed_nanos: u128)
    -> Option<u64> {
    match time_saved_nanos(total_elapsed_nanos, lookup_elapsed_nanos) {
        Some(saved) => Some(((saved / NANOS_PER_MILLI) % 0x1_0000_0000_0000_0000) as u64),
        None => None,
    }
}

impl ExecutionMetadata {
    /// How much faster a cache hit was than the execution it replaces.
    pub fn time_saved_from_cache(&self, lookup_elapsed_nanos: u128) -> (saved: Option<u128>)
        ensures
            saved == time_saved_nanos(self.total_elapsed_nanos, lookup_elapsed_nanos),
    {
        match self.total_elapsed_nanos {
            Some(total) => {
                if total >= lookup_elapsed_nanos {
                    Some(total - lookup_elapsed_nanos)
                } else {
                    Some(0)
                }
            },
            None => None,
        }
    }

    /// The saved time in whole milliseconds.
    pub fn time_saved_millis(&self, lookup_elapsed_nanos: u128) -> (saved: Option<u64>)
        ensures
            saved == time_saved_millis(self.total_elapsed_nanos, lookup_elapsed_nanos),
    {
        match self.time_saved_from_cache(lookup_elapsed_nanos) {
            Some(nanos) => {
                let millis: u128 = nanos / NANOS_PER_MILLI;
                let low: u64 = #[verifier::truncate] (millis as u64);
                assert(low == millis % 0x1_0000_0000_0000_0000) by (bit_vector)
                    requires
                        low == millis as u64,
                ;
                Some(low)
            },
            None => None,
        }
    }
}

/// The result of executing a process, however it was obtained.
#[derive(Clone, Copy, Debug, PartialEq, Eq, Hash)]
pub struct ExecutionResult {
    pub exit_code: i32,
    pub stdout_digest: Digest,
    pub stderr_digest: Digest,
    /// Root digest of the directory tree holding everything the process wrote.
    pub output_directory: Digest,
    pub metadata: ExecutionMetadata,
}

impl ExecutionResult {
    /// The same result, tagged with another source.
    pub open spec fn with_source(self, source: ResultSource) -> ExecutionResult {
        ExecutionResult {
            metadata: ExecutionMetadata { source, ..self.metadata },
            ..self
        }
    }
}

/// A failure of running the process, as the downstream runner or the local store reports it.
#[derive(Clone, Debug, PartialEq, Eq)]
pub enum ProcessError {
    /// A digest was missing from the store.
    MissingDigest(String, Digest),
    /// Anything else.
    Unclassified(String),
}

} // verus!
