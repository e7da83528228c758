use std::collections::BTreeMap;
use std::time::Duration;
use remote_cache::result::{CacheContentBehavior, CacheScope, ExecutionMetadata, ExecutionResult, Platform, ResultSource};
use remote_cache::digest::Digest;
use remote_cache::runner::{hit_description, CommandRunner};
use remote_cache::warnings::{
    is_power_of_two, CacheErrorType, ErrorCounter, LogLevel, RemoteCacheWarningsBehavior,
    UnknownBehavior,
};

fn runner(behavior: RemoteCacheWarningsBehavior) -> CommandRunner {
    CommandRunner::new(
        Some("main".to_string()),
        None,
        "http://cache.example:9092",
        None,
        BTreeMap::new(),
        true,
        true,
        behavior,
        CacheContentBehavior::Defer,
        64,
        Duration::from_secs(30),
        None,
    )
}

fn result_with_exit(exit_code: i32) -> ExecutionResult {
    ExecutionResult {
        exit_code,
        stdout_digest: Digest::new([1; 32], 10),
        stderr_digest: Digest::new([2; 32], 0),
        output_directory: Digest::new([3; 32], 80),
        metadata: ExecutionMetadata {
            total_elapsed_nanos: None,
            platform: Platform::LinuxX86_64,
            source: ResultSource::HitRemotely,
        },
    }
}

#[test]
fn powers_of_two() {
    let expected = [1usize, 2, 4, 8, 16, 32, 64, 128, 256, 512, 1024];
    for n in 0usize..=1024 {
        assert_eq!(is_power_of_two(n), expected.contains(&n), "{}", n);
    }
    assert!(is_power_of_two(1usize << (usize::BITS - 1)));
    assert!(!is_power_of_two(usize::MAX));
    assert!(!is_power_of_two(0));
}

#[test]
fn should_warn_follows_the_behavior() {
    for n in 1usize..=20 {
        assert!(!RemoteCacheWarningsBehavior::Ignore.should_warn(n));
        assert_eq!(RemoteCacheWarningsBehavior::FirstOnly.should_warn(n), n == 1);
        assert_eq!(RemoteCacheWarningsBehavior::Backoff.should_warn(n), n.is_power_of_two());
    }
}

#[test]
fn counter_starts_empty_and_counts_per_text() {
    let mut counter = ErrorCounter::new();
    assert_eq!(counter.count("a"), 0);
    assert_eq!(counter.increment("a"), 1);
    assert_eq!(counter.increment("b"), 1);
    assert_eq!(counter.increment("a"), 2);
    assert_eq!(counter.increment("a"), 3);
    assert_eq!(counter.count("a"), 3);
    assert_eq!(counter.count("b"), 1);
    assert_eq!(counter.count("c"), 0);
    assert_eq!(counter.count(""), 0);
    assert_eq!(counter.increment(""), 1);
}

#[test]
fn identical_errors_count_up_to_k() {
    let mut counter = ErrorCounter::new();
    for k in 1usize..=100 {
        assert_eq!(counter.increment("Unavailable: \"connection refused\""), k);
    }
    assert_eq!(counter.count("Unavailable: \"connection refused\""), 100);
}

#[test]
fn backoff_warns_on_powers_of_two() {
    let mut runner = runner(RemoteCacheWarningsBehavior::Backoff);
    let mut levels = Vec::new();
    for _ in 0..8 {
        levels.push(runner.log_cache_error("boom", CacheErrorType::ReadError).level);
    }
    assert_eq!(
        levels,
        vec![
            LogLevel::Warn,
            LogLevel::Warn,
            LogLevel::Debug,
            LogLevel::Warn,
            LogLevel::Debug,
            LogLevel::Debug,
            LogLevel::Debug,
            LogLevel::Warn,
        ]
    );
    assert_eq!(runner.error_count("boom", CacheErrorType::ReadError), 8);
}

#[test]
fn first_only_warns_once_per_text() {
    let mut runner = runner(RemoteCacheWarningsBehavior::FirstOnly);
    assert_eq!(runner.log_cache_error("a", CacheErrorType::WriteError).level, LogLevel::Warn);
    assert_eq!(runner.log_cache_error("a", CacheErrorType::WriteError).level, LogLevel::Debug);
    assert_eq!(runner.log_cache_error("b", CacheErrorType::WriteError).level, LogLevel::Warn);
    assert_eq!(runner.log_cache_error("a", CacheErrorType::WriteError).level, LogLevel::Debug);
}

#[test]
fn ignore_never_warns() {
    let mut runner = runner(RemoteCacheWarningsBehavior::Ignore);
    for k in 1usize..=16 {
        let record = runner.log_cache_error("a", CacheErrorType::ReadError);
        assert_eq!(record.level, LogLevel::Debug);
        assert_eq!(record.count, k);
    }
}

#[test]
fn read_and_write_errors_are_counted_apart() {
    let mut runner = runner(RemoteCacheWarningsBehavior::Backoff);
    assert_eq!(runner.log_cache_error("x", CacheErrorType::ReadError).count, 1);
    assert_eq!(runner.log_cache_error("x", CacheErrorType::ReadError).count, 2);
    assert_eq!(runner.log_cache_error("x", CacheErrorType::WriteError).count, 1);
    assert_eq!(runner.error_count("x", CacheErrorType::ReadError), 2);
    assert_eq!(runner.error_count("x", CacheErrorType::WriteError), 1);
    assert_eq!(runner.error_count("y", CacheErrorType::WriteError), 0);
}

#[test]
fn message_names_direction_count_and_error() {
    let mut runner = runner(RemoteCacheWarningsBehavior::Backoff);
    let first = runner.log_cache_error("Unavailable: \"down\"", CacheErrorType::ReadError);
    assert_eq!(
        first.message,
        "Failed to read from remote cache (1 occurrences so far): Unavailable: \"down\""
    );
    for _ in 0..10 {
        runner.log_cache_error("disk full", CacheErrorType::WriteError);
    }
    let later = runner.log_cache_error("disk full", CacheErrorType::WriteError);
    assert_eq!(later.count, 11);
    assert_eq!(later.message, "Failed to write to remote cache (11 occurrences so far): disk full");
}

#[test]
fn new_selects_tls_by_scheme() {
    let plain = runner(RemoteCacheWarningsBehavior::Ignore);
    assert!(!plain.configuration().tls);
    let secure = CommandRunner::new(
        None,
        Some("salt".to_string()),
        "https://cache.example",
        Some(vec![1, 2, 3]),
        BTreeMap::from([("user-agent".to_string(), "builder".to_string())]),
        false,
        true,
        RemoteCacheWarningsBehavior::FirstOnly,
        CacheContentBehavior::Validate,
        16,
        Duration::from_millis(1500),
        Some("/caches".to_string()),
    );
    let c = secure.configuration();
    assert!(c.tls);
    assert_eq!(c.action_cache_address, "https://cache.example");
    assert_eq!(c.root_ca_certs, Some(vec![1, 2, 3]));
    assert_eq!(c.headers.len(), 1);
    assert_eq!(c.headers.get("user-agent"), Some(&"builder".to_string()));
    assert_eq!(c.concurrency_limit, 16);
    assert_eq!(c.read_timeout, Duration::from_millis(1500));
    assert_eq!(c.instance_name, None);
    assert_eq!(c.process_cache_namespace, Some("salt".to_string()));
    assert_eq!(c.append_only_caches_base_path, Some("/caches".to_string()));
    assert!(!c.cache_read);
    assert!(c.cache_write);
    assert_eq!(c.warnings_behavior, RemoteCacheWarningsBehavior::FirstOnly);
    assert_eq!(c.cache_content_behavior, CacheContentBehavior::Validate);
    assert_eq!(secure.error_count("anything", CacheErrorType::ReadError), 0);
}

#[test]
fn instance_name_defaults_to_empty() {
    assert_eq!(runner(RemoteCacheWarningsBehavior::Ignore).instance_name_or_empty(), "main");
    let unnamed = CommandRunner::new(
        None,
        None,
        "http://c",
        None,
        BTreeMap::new(),
        true,
        true,
        RemoteCacheWarningsBehavior::Ignore,
        CacheContentBehavior::Defer,
        1,
        Duration::from_secs(1),
        None,
    );
    assert_eq!(unnamed.instance_name_or_empty(), "");
}

#[test]
fn plan_follows_scope_and_switches() {
    let both = runner(RemoteCacheWarningsBehavior::Ignore);
    let always = both.plan(CacheScope::Always);
    assert!(always.failures_cached && always.use_remote_cache && always.speculate && always.write);
    let successful = both.plan(CacheScope::Successful);
    assert!(!successful.failures_cached);
    assert!(successful.use_remote_cache && successful.speculate && successful.write);
    let never = both.plan(CacheScope::Never);
    assert!(!never.failures_cached && !never.use_remote_cache && !never.speculate && !never.write);
    assert!(CacheScope::Always.failures_cached());
    assert!(!CacheScope::Successful.failures_cached());
    assert!(CacheScope::Successful.uses_remote_cache());
    assert!(!CacheScope::Never.uses_remote_cache());
}

#[test]
fn failed_lookup_is_logged_and_becomes_a_miss() {
    let mut runner = runner(RemoteCacheWarningsBehavior::Backoff);
    let (cached, record) = runner.cache_read_completed(Err("Internal: \"oops\"".to_string()), true);
    assert_eq!(cached, None);
    let record = record.unwrap();
    assert_eq!(record.level, LogLevel::Warn);
    assert_eq!(record.count, 1);
    assert_eq!(
        record.message,
        "Failed to read from remote cache (1 occurrences so far): Internal: \"oops\""
    );
    assert_eq!(runner.error_count("Internal: \"oops\"", CacheErrorType::ReadError), 1);
    assert_eq!(runner.error_count("Internal: \"oops\"", CacheErrorType::WriteError), 0);
}

#[test]
fn cached_failure_is_dropped_unless_failures_are_cached() {
    let mut runner = runner(RemoteCacheWarningsBehavior::Backoff);
    let failed = result_with_exit(3);
    assert_eq!(runner.cache_read_completed(Ok(Some(failed)), false), (None, None));
    assert_eq!(runner.cache_read_completed(Ok(Some(failed)), true), (Some(failed), None));
    let fine = result_with_exit(0);
    assert_eq!(runner.cache_read_completed(Ok(Some(fine)), false), (Some(fine), None));
    assert_eq!(runner.cache_read_completed(Ok(None), true), (None, None));
    assert_eq!(runner.error_count("", CacheErrorType::ReadError), 0);
}

#[test]
fn hit_description_marks_the_description() {
    assert_eq!(hit_description("Compiling foo"), "Hit: Compiling foo");
    assert_eq!(hit_description(""), "Hit: ");
}

#[test]
fn behavior_is_read_from_its_name() {
    assert_eq!(RemoteCacheWarningsBehavior::from_name("ignore"), Some(RemoteCacheWarningsBehavior::Ignore));
    assert_eq!(
        RemoteCacheWarningsBehavior::from_name("first_only"),
        Some(RemoteCacheWarningsBehavior::FirstOnly)
    );
    assert_eq!(RemoteCacheWarningsBehavior::from_name("backoff"), Some(RemoteCacheWarningsBehavior::Backoff));
    assert_eq!("backoff".parse(), Ok(RemoteCacheWarningsBehavior::Backoff));
    assert_eq!("first_only".parse(), Ok(RemoteCacheWarningsBehavior::FirstOnly));
    assert_eq!("ignore".parse(), Ok(RemoteCacheWarningsBehavior::Ignore));
}

#[test]
fn unknown_behavior_names_are_rejected() {
    for name in ["", "Ignore", "IGNORE", "FirstOnly", "first-only", "firstonly", "back_off", " backoff", "backoff "] {
        assert_eq!(RemoteCacheWarningsBehavior::from_name(name), None, "{:?}", name);
        assert_eq!(name.parse::<RemoteCacheWarningsBehavior>(), Err(UnknownBehavior));
    }
}
