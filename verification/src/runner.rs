//! The cached runner: its configuration, its error counters, and the decisions it makes
//! for every request.

use crate::result::{CacheContentBehavior, CacheScope, ExecutionResult};
use crate::text::{decimal, decimal_digits, starts_with};
use crate::warnings::{
    level_at, CacheErrorType, ErrorCounter, LogLevel, RemoteCacheWarningsBehavior,
};
use std::collections::BTreeMap;
use std::time::Duration;
use vstd::prelude::*;
use vstd::string::*;

verus! {

/// One line for the log: its level, its text, and the occurrence number it reports.
#[derive(Clone, Debug, PartialEq, Eq)]
pub struct LogRecord {
    pub level: LogLevel,
    pub message: String,
    pub count: usize,
}

/// The words that name the direction of a failed cache operation.
pub open spec fn failure_desc(err_type: CacheErrorType) -> Seq<char> {
    match err_type {
        CacheErrorType::ReadError => "read from"@,
        CacheErrorType::WriteError => "write to"@,
    }
}

/// The text that reports occurrence number `count` of the error `err`.
pub open spec fn log_message(err_type: CacheErrorType, count: nat, err: Seq<char>) -> Seq<char> {
    "Failed to "@ + failure_desc(err_type) + " remote cache ("@ + decimal_digits(count)
        + " occurrences so far): "@ + err
}

/// What a request is allowed to do with the remote cache.
#[derive(Clone, Copy, Debug, PartialEq, Eq, Structural)]
pub struct RunPlan {
    /// Results with a nonzero exit code may be cached.
    pub failures_cached: bool,
    /// The remote cache takes part in the request.
    pub use_remote_cache: bool,
    /// The cache is looked up, in a race with the downstream runner.
    pub speculate: bool,
    /// A result that did not come from the cache may be written back.
    pub write: bool,
}

impl RunPlan {
    /// Whether a result obtained under this plan is written back to the cache.
    pub open spec fn writes_back(self, hit: bool, exit_code: i32) -> bool {
        !hit && (exit_code == 0 || self.failures_cached) && self.write
    }

    /// Decides whether a result obtained under this plan is written back to the cache.
    pub fn should_write_back(&self, hit: bool, exit_code: i32) -> (r: bool)
        ensures
            r == self.writes_back(hit, exit_code),
    {
        !hit && (exit_code == 0 || self.failures_cached) && self.write
    }
}

/// The plan that a runner with the given switches follows for a request of the given scope.
pub open spec fn plan_for(cache_read: bool, cache_write: bool, scope: CacheScope) -> RunPlan {
    let use_remote_cache = scope == CacheScope::Always || scope == CacheScope::Successful;
    RunPlan {
        failures_cached: scope == CacheScope::Always,
        use_remote_cache,
        speculate: cache_read && use_remote_cache,
        write: cache_write && use_remote_cache,
    }
}

/// What a cached runner is set up with.
#[derive(Debug, PartialEq, Eq)]
pub struct Configuration {
    /// Namespace sent with every call to the cache.
    pub instance_name: Option<String>,
    /// Salt mixed into every action fingerprint.
    pub process_cache_namespace: Option<String>,
    /// Mount point handed to the builder of execute requests.
    pub append_only_caches_base_path: Option<String>,
    /// Where the cache is reached.
    pub action_cache_address: String,
    /// The cache is reached over TLS.
    pub tls: bool,
    /// Trust anchors for TLS.
    pub root_ca_certs: Option<Vec<u8>>,
    /// Headers sent with every call.
    pub headers: BTreeMap<String, String>,
    /// The most calls to the cache that are under way at once.
    pub concurrency_limit: usize,
    /// The deadline for one attempt of a call.
    pub read_timeout: Duration,
    pub cache_read: bool,
    pub cache_write: bool,
    pub cache_content_behavior: CacheContentBehavior,
    pub warnings_behavior: RemoteCacheWarningsBehavior,
}

/// A runner that consults a remote action cache before, and feeds it after, running a
/// process downstream.
pub struct CommandRunner {
    configuration: Configuration,
    read_errors_counter: ErrorCounter,
    write_errors_counter: ErrorCounter,
}

impl CommandRunner {
    /// What the runner was set up with.
    pub closed spec fn config(self) -> Configuration {
        self.configuration
    }

    /// The counter for failures in the given direction.
    pub closed spec fn errors(self, err_type: CacheErrorType) -> ErrorCounter {
        match err_type {
            CacheErrorType::ReadError => self.read_errors_counter,
            CacheErrorType::WriteError => self.write_errors_counter,
        }
    }

    /// A runner for the cache at `action_cache_address`, with no failure recorded yet.
    /// An address that begins with `https://` selects TLS.
    pub fn new(
        instance_name: Option<String>,
        process_cache_namespace: Option<String>,
        action_cache_address: &str,
        root_ca_certs: Option<Vec<u8>>,
        headers: BTreeMap<String, String>,
        cache_read: bool,
        cache_write: bool,
        warnings_behavior: RemoteCacheWarningsBehavior,
        cache_content_behavior: CacheContentBehavior,
        concurrency_limit: usize,
        read_timeout: Duration,
        append_only_caches_base_path: Option<String>,
    ) -> (runner: CommandRunner)
        ensures
            runner.config().instance_name == instance_name,
            runner.config().process_cache_namespace == process_cache_namespace,
            runner.config().append_only_caches_base_path == append_only_caches_base_path,
            runner.config().action_cache_address@ == action_cache_address@,
            runner.config().tls == "https://"@.is_prefix_of(action_cache_address@),
            runner.config().root_ca_certs == root_ca_certs,
            runner.config().headers == headers,
            runner.config().concurrency_limit == concurrency_limit,
            runner.config().read_timeout == read_timeout,
            runner.config().cache_read == cache_read,
            runner.config().cache_write == cache_write,
            runner.config().warnings_behavior == warnings_behavior,
            runner.config().cache_content_behavior == cache_content_behavior,
            forall|err_type: CacheErrorType|
                runner.errors(err_type)@ == Map::<Seq<char>, nat>::empty(),
    {
        let tls = starts_with(action_cache_address, "https://");
        CommandRunner {
            configuration: Configuration {
                instance_name,
                process_cache_namespace,
                append_only_caches_base_path,
                action_cache_address: action_cache_address.to_owned(),
                tls,
                root_ca_certs,
                headers,
                concurrency_limit,
                read_timeout,
                cache_read,
                cache_write,
                cache_content_behavior,
                warnings_behavior,
            },
            read_errors_counter: ErrorCounter::new(),
            write_errors_counter: ErrorCounter::new(),
        }
    }

    /// What the runner was set up with.
    pub fn configuration(&self) -> (c: &Configuration)
        ensures
            *c == self.config(),
    {
        &self.configuration
    }

    /// The instance name sent with every call: the configured one, or the empty string.
    pub fn instance_name_or_empty(&self) -> (name: String)
        ensures
            name@ == match self.config().instance_name {
                Some(n) => n@,
                None => Seq::<char>::empty(),
            },
    {
        match &self.configuration.instance_name {
            Some(n) => n.clone(),
            None => String::new(),
        }
    }

    /// Settles what a request of the given scope may do with the cache.
    pub fn plan(&self, scope: CacheScope) -> (plan: RunPlan)
        ensures
            plan == plan_for(self.config().cache_read, self.config().cache_write, scope),
    {
        let use_remote_cache = scope.uses_remote_cache();
        RunPlan {
            failures_cached: scope.failures_cached(),
            use_remote_cache,
            speculate: self.configuration.cache_read && use_remote_cache,
            write: self.configuration.cache_write && use_remote_cache,
        }
    }

    /// How often the error `err` has been recorded in the given direction.
    pub fn error_count(&self, err: &str, err_type: CacheErrorType) -> (n: usize)
        ensures
            n == self.errors(err_type).occurrences(err@),
    {
        match err_type {
            CacheErrorType::ReadError => self.read_errors_counter.count(err),
            CacheErrorType::WriteError => self.write_errors_counter.count(err),
        }
    }

    /// Records one more occurrence of the failure `err` and says how to report it: as a
    /// warning where the runner's behavior elevates this occurrence, for debugging
    /// otherwise.
    pub fn log_cache_error(&mut self, err: &str, err_type: CacheErrorType) -> (record: LogRecord)
        requires
            old(self).errors(err_type).occurrences(err@) < usize::MAX,
        ensures
            record.count == old(self).errors(err_type).occurrences(err@) + 1,
            record.level == level_at(old(self).config().warnings_behavior, record.count as nat),
            record.message@ == log_message(err_type, record.count as nat, err@),
            final(self).config() == old(self).config(),
            final(self).errors(err_type)@ == old(self).errors(err_type)@.insert(
                err@,
                record.count as nat,
            ),
            forall|other: CacheErrorType|
                other != err_type ==> final(self).errors(other) == old(self).errors(other),
    {
        let count: usize = match err_type {
            CacheErrorType::ReadError => self.read_errors_counter.increment(err),
            CacheErrorType::WriteError => self.write_errors_counter.increment(err),
        };
        let mut message = String::from_str("Failed to ");
        match err_type {
            CacheErrorType::ReadError => message.append("read from"),
            CacheErrorType::WriteError => message.append("write to"),
        }
        message.append(" remote cache (");
        let numeral = decimal(count);
        message.append(numeral.as_str());
        message.append(" occurrences so far): ");
        message.append(err);
        let level = if self.configuration.warnings_behavior.should_warn(count) {
            LogLevel::Warn
        } else {
            LogLevel::Debug
        };
        LogRecord { level, message, count }
    }

    /// Settles what a finished cache lookup contributes to the request. A result is used
    /// only if it succeeded or failures are cached; a lookup that failed is recorded, is
    /// reported as `log_cache_error` says, and contributes nothing.
    pub fn cache_read_completed(
        &mut self,
        response: Result<Option<ExecutionResult>, String>,
        failures_cached: bool,
    ) -> (r: (Option<ExecutionResult>, Option<LogRecord>))
        requires
            match response {
                Ok(_) => true,
                Err(e) => old(self).errors(CacheErrorType::ReadError).occurrences(e@)
                    < usize::MAX,
            },
        ensures
            final(self).config() == old(self).config(),
            final(self).errors(CacheErrorType::WriteError) == old(self).errors(
                CacheErrorType::WriteError,
            ),
            match response {
                Ok(cached) => {
                    &&& *final(self) == *old(self)
                    &&& r.1 is None
                    &&& r.0 == match cached {
                        Some(result) => if result.exit_code == 0 || failures_cached {
                            Some(result)
                        } else {
                            None
                        },
                        None => None,
                    }
                },
                Err(e) => {
                    &&& r.0 is None
                    &&& r.1 matches Some(record)
                    &&& record.count == old(self).errors(CacheErrorType::ReadError).occurrences(e@)
                        + 1
                    &&& record.level == level_at(
                        old(self).config().warnings_behavior,
                        record.count as nat,
                    )
                    &&& record.message@ == log_message(
                        CacheErrorType::ReadError,
                        record.count as nat,
                        e@,
                    )
                    &&& final(self).errors(CacheErrorType::ReadError)@ == old(self).errors(
                        CacheErrorType::ReadError,
                    )@.insert(e@, record.count as nat)
                },
            },
    {
        match response {
            Ok(Some(result)) => {
                if result.exit_code == 0 || failures_cached {
                    (Some(result), None)
                } else {
                    (None, None)
                }
            },
            Ok(None) => (None, None),
            Err(e) => {
                let record = self.log_cache_error(e.as_str(), CacheErrorType::ReadError);
                (None, Some(record))
            },
        }
    }
}

/// The description of an operation that the cache answered: the description it had,
/// marked as a hit.
pub fn hit_description(description: &str) -> (marked: String)
    ensures
        marked@ == "Hit: "@ + description@,
{
    let mut marked = String::from_str("Hit: ");
    marked.append(description);
    marked
}

} // verus!
