use std::collections::BTreeMap;
use std::time::Duration;
use remote_cache::digest::Digest;
use remote_cache::lookup::{Lookup, LookupAction, LookupEvent, LookupVerdict};
use remote_cache::manifest::{
    make_action_result, output_directory_trees, Command, Found, ManifestError, ManifestMetadata,
    OutputFile, OutputKind, ResultManifest, StoredTree,
};
use remote_cache::metrics::{lookup_metric, Metric};
use remote_cache::path::RelativePath;
use remote_cache::result::{
    CacheContentBehavior, CacheScope, ExecutionMetadata, ExecutionResult, Platform, ResultSource,
};
use remote_cache::run::{Run, RunAction, RunEvent, RunOutcome, SpeculationWinner};
use remote_cache::runner::CommandRunner;
use remote_cache::status::{RpcStatus, StatusCode};
use remote_cache::trie::{DirectoryTrie, Entry};
use remote_cache::warnings::{CacheErrorType, LogLevel, RemoteCacheWarningsBehavior};
use remote_cache::write_back::{WriteAction, WriteBack, WriteError, WriteEvent, WriteTarget};

fn d(byte: u8, size: usize) -> Digest {
    Digest::new([byte; 32], size)
}

fn runner(cache_read: bool, cache_write: bool, behavior: CacheContentBehavior) -> CommandRunner {
    CommandRunner::new(
        None,
        None,
        "https://cache.example",
        None,
        BTreeMap::new(),
        cache_read,
        cache_write,
        RemoteCacheWarningsBehavior::Backoff,
        behavior,
        64,
        Duration::from_secs(30),
        None,
    )
}

fn downstream(exit_code: i32) -> ExecutionResult {
    ExecutionResult {
        exit_code,
        stdout_digest: d(90, 5),
        stderr_digest: d(91, 0),
        output_directory: d(1, 100),
        metadata: ExecutionMetadata {
            total_elapsed_nanos: Some(1_000_000_000),
            platform: Platform::LinuxX86_64,
            source: ResultSource::RanLocally,
        },
    }
}

fn hit(exit_code: i32) -> ExecutionResult {
    ExecutionResult {
        metadata: ExecutionMetadata { source: ResultSource::HitRemotely, ..downstream(exit_code).metadata },
        ..downstream(exit_code)
    }
}

fn target() -> WriteTarget {
    WriteTarget { instance_name: String::new(), action_digest: d(7, 140), command_digest: d(8, 60) }
}

fn finish(action: RunAction) -> RunOutcome {
    match action {
        RunAction::Finish(outcome) => outcome,
        other => panic!("{:?}", other),
    }
}

/// Drives a write-back with a store and a cache that never fail, and returns the
/// manifests that were published.
fn write_back(
    command: &Command,
    result: &ExecutionResult,
    trie: &DirectoryTrie,
) -> (Vec<ResultManifest>, Result<(), WriteError>) {
    let mut published = Vec::new();
    let mut uploaded: Vec<Digest> = Vec::new();
    let (mut state, mut action, _) = WriteBack::start(target());
    loop {
        let event = match action {
            WriteAction::EnsureActionUploaded { .. } => WriteEvent::ActionUploaded(Ok(())),
            WriteAction::BuildManifest => {
                let built = output_directory_trees(command, trie)
                    .and_then(|trees| {
                        let stored: Vec<StoredTree> = trees
                            .into_iter()
                            .enumerate()
                            .map(|(i, t)| StoredTree {
                                path: t.path,
                                tree_digest: d(200 + i as u8, t.tree.children.len()),
                                file_digests: t.file_digests,
                            })
                            .collect();
                        make_action_result(command, result, trie, &stored)
                    })
                    .map_err(WriteError::Manifest);
                WriteEvent::ManifestBuilt(built)
            }
            WriteAction::EnsureRemoteHas(closure) => {
                uploaded = closure;
                WriteEvent::ClosureEnsured(Ok(()))
            }
            WriteAction::UpdateActionResult(request) => {
                for file in &request.action_result.output_files {
                    assert!(uploaded.contains(&file.digest.unwrap()));
                }
                for directory in &request.action_result.output_directories {
                    assert!(uploaded.contains(&directory.tree_digest.unwrap()));
                }
                assert!(uploaded.contains(&request.action_result.stdout_digest.unwrap()));
                assert!(uploaded.contains(&request.action_result.stderr_digest.unwrap()));
                published.push(request.action_result);
                WriteEvent::Published(Ok(()))
            }
            WriteAction::Finish(outcome) => return (published, outcome),
            WriteAction::Nothing => panic!("nothing to do"),
        };
        let (next, then) = state.step(event);
        state = next;
        action = then;
    }
}

#[test]
fn fresh_miss_then_write_back() {
    let runner = runner(true, true, CacheContentBehavior::Defer);
    let plan = runner.plan(CacheScope::Successful);
    let (mut run, first) = Run::start(plan);
    assert_eq!(first, RunAction::AwaitLookupOrDelay);

    let (lookup, _, _) = Lookup::start(d(7, 140), String::new(), Platform::LinuxX86_64, CacheContentBehavior::Defer);
    let (_, answered) = lookup.step(LookupEvent::Response(Err(RpcStatus {
        code: StatusCode::NotFound,
        message: String::new(),
    })));
    assert_eq!(answered, LookupAction::Finish(LookupVerdict::Uncached));

    assert_eq!(
        run.step(RunEvent::LookupCompleted { cached: None, elapsed_nanos: 3_000_000 }),
        RunAction::AwaitDownstream
    );
    let outcome = finish(run.step(RunEvent::DownstreamCompleted(Ok(downstream(0)))));
    assert_eq!(outcome.result.unwrap().metadata.source, ResultSource::RanLocally);
    assert!(!outcome.hit);
    assert!(outcome.write_back);

    let d_a = d(42, 8);
    let trie = DirectoryTrie::new(
        d(1, 100),
        vec![Entry::File { name: "a.txt".to_string(), digest: d_a, is_executable: false }],
    );
    let command = Command {
        output_directories: vec![],
        output_files: vec![RelativePath::new("a.txt").unwrap()],
    };
    let (published, ended) = write_back(&command, &downstream(0), &trie);
    assert_eq!(ended, Ok(()));
    assert_eq!(published.len(), 1);
    assert_eq!(
        published[0].output_files,
        vec![OutputFile { path: "a.txt".to_string(), digest: Some(d_a), is_executable: false }]
    );
    assert_eq!(published[0].exit_code, 0);
    assert_eq!(
        published[0].execution_metadata,
        Some(ManifestMetadata { total_elapsed_nanos: Some(1_000_000_000) })
    );
}

#[test]
fn hit_wins_the_speculation() {
    let runner = runner(true, true, CacheContentBehavior::Defer);
    let (mut run, _) = Run::start(runner.plan(CacheScope::Successful));
    let outcome = finish(run.step(RunEvent::LookupCompleted {
        cached: Some(hit(0)),
        elapsed_nanos: 20_000_000,
    }));
    assert_eq!(outcome.result, Ok(hit(0)));
    assert!(outcome.hit);
    assert!(!outcome.write_back);
    assert_eq!(outcome.winner, Some(SpeculationWinner::RemoteFirst));
    assert_eq!(outcome.time_saved_millis, Some(980));
    let remote_first: Vec<u64> = outcome
        .counters()
        .into_iter()
        .filter(|(m, _)| *m == Metric::RemoteCacheSpeculationRemoteCompletedFirst)
        .map(|(_, n)| n)
        .collect();
    assert_eq!(remote_first, vec![1]);
    assert_eq!(
        run.step(RunEvent::DownstreamCompleted(Ok(downstream(0)))),
        RunAction::Nothing
    );
}

#[test]
fn local_wins_when_the_cache_stalls() {
    let runner = runner(true, false, CacheContentBehavior::Defer);
    let (mut run, _) = Run::start(runner.plan(CacheScope::Always));
    assert_eq!(run.step(RunEvent::DelayElapsed), RunAction::AwaitLookupOrDownstream);
    let outcome = finish(run.step(RunEvent::DownstreamCompleted(Ok(downstream(0)))));
    assert_eq!(outcome.result, Ok(downstream(0)));
    assert!(!outcome.hit);
    assert_eq!(outcome.counters(), vec![(Metric::RemoteCacheSpeculationLocalCompletedFirst, 1)]);
    assert_eq!(
        run.step(RunEvent::LookupCompleted { cached: Some(hit(0)), elapsed_nanos: 1 }),
        RunAction::Nothing
    );
}

#[test]
fn failure_is_not_cached_under_successful() {
    let runner = runner(true, true, CacheContentBehavior::Defer);
    let (mut run, _) = Run::start(runner.plan(CacheScope::Successful));
    run.step(RunEvent::LookupCompleted { cached: None, elapsed_nanos: 1 });
    let outcome = finish(run.step(RunEvent::DownstreamCompleted(Ok(downstream(3)))));
    assert_eq!(outcome.result, Ok(downstream(3)));
    assert!(!outcome.write_back);
}

#[test]
fn failure_is_cached_under_always_and_served_as_a_hit() {
    let mut runner = runner(true, true, CacheContentBehavior::Defer);
    let plan = runner.plan(CacheScope::Always);
    let (mut run, _) = Run::start(plan);
    run.step(RunEvent::LookupCompleted { cached: None, elapsed_nanos: 1 });
    let outcome = finish(run.step(RunEvent::DownstreamCompleted(Ok(downstream(3)))));
    assert!(outcome.write_back);

    let trie = DirectoryTrie::new(d(1, 100), vec![]);
    let command = Command { output_directories: vec![], output_files: vec![] };
    let (published, ended) = write_back(&command, &downstream(3), &trie);
    assert_eq!(ended, Ok(()));
    assert_eq!(published.len(), 1);
    assert_eq!(published[0].exit_code, 3);

    let (lookup, _, _) = Lookup::start(d(7, 140), String::new(), Platform::LinuxX86_64, CacheContentBehavior::Defer);
    let (lookup, _) = lookup.step(LookupEvent::Response(Ok(published[0].clone())));
    let (_, action) = lookup.step(LookupEvent::OutputRoot(Ok(d(1, 100))));
    let verdict = match action {
        LookupAction::Finish(verdict) => verdict,
        other => panic!("{:?}", other),
    };
    let (cached, record) = runner.cache_read_completed(
        verdict.into_result().map_err(|e| format!("{:?}", e)),
        plan.failures_cached,
    );
    assert_eq!(record, None);
    let (mut again, _) = Run::start(plan);
    let outcome = finish(again.step(RunEvent::LookupCompleted { cached, elapsed_nanos: 1 }));
    assert!(outcome.hit);
    assert_eq!(outcome.result, Ok(hit(3)));
    assert!(!outcome.write_back);
}

#[test]
fn symlink_at_declared_output_file() {
    let trie = DirectoryTrie::new(
        d(1, 100),
        vec![Entry::Symlink { name: "out".to_string(), target: "elsewhere".to_string() }],
    );
    let command = Command {
        output_directories: vec![],
        output_files: vec![RelativePath::new("out").unwrap()],
    };
    let expected = ManifestError {
        declared: OutputKind::File,
        found: Found::Symlink,
        path: "out".to_string(),
        root_digest: d(1, 100),
    };
    assert_eq!(
        make_action_result(&command, &downstream(0), &trie, &vec![]),
        Err(expected.clone())
    );
    let (published, ended) = write_back(&command, &downstream(0), &trie);
    assert!(published.is_empty());
    assert_eq!(ended, Err(WriteError::Manifest(expected)));
}

#[test]
fn adaptive_warnings_backoff() {
    let mut runner = runner(true, true, CacheContentBehavior::Defer);
    let mut warned = Vec::new();
    let mut debugged = Vec::new();
    for _ in 0..8 {
        let (cached, record) =
            runner.cache_read_completed(Err("Unavailable: \"no route\"".to_string()), false);
        assert_eq!(cached, None);
        let record = record.unwrap();
        match record.level {
            LogLevel::Warn => warned.push(record.count),
            LogLevel::Debug => debugged.push(record.count),
        }
    }
    assert_eq!(warned, vec![1, 2, 4, 8]);
    assert_eq!(debugged, vec![3, 5, 6, 7]);
    assert_eq!(runner.error_count("Unavailable: \"no route\"", CacheErrorType::ReadError), 8);
}

#[test]
fn validate_miss() {
    let manifest = ResultManifest {
        exit_code: 0,
        stdout_digest: Some(d(90, 5)),
        stderr_digest: Some(d(91, 0)),
        execution_metadata: None,
        output_files: vec![OutputFile {
            path: "a.txt".to_string(),
            digest: Some(d(66, 8)),
            is_executable: false,
        }],
        output_directories: vec![],
    };
    let (lookup, _, _) = Lookup::start(d(7, 140), String::new(), Platform::LinuxX86_64, CacheContentBehavior::Validate);
    let (lookup, action) = lookup.step(LookupEvent::Response(Ok(manifest)));
    assert_eq!(action, LookupAction::LoadOutputRoot);
    let (lookup, action) = lookup.step(LookupEvent::OutputRoot(Ok(d(1, 100))));
    assert_eq!(
        action,
        LookupAction::CheckContent { fetch: false, files: [d(90, 5), d(91, 0)], directory: d(1, 100) }
    );
    let (lookup, action) = lookup.step(LookupEvent::ContentChecked(Ok(false)));
    assert_eq!(lookup, Lookup::Finished);
    assert_eq!(action, LookupAction::Finish(LookupVerdict::Uncached));
    assert_eq!(lookup_metric(&LookupVerdict::Uncached), Metric::RemoteCacheRequestsUncached);

    let mut runner = runner(true, true, CacheContentBehavior::Validate);
    let (mut run, _) = Run::start(runner.plan(CacheScope::Successful));
    let (cached, record) = runner.cache_read_completed(Ok(None), false);
    assert_eq!((cached, record), (None, None));
    assert_eq!(
        run.step(RunEvent::LookupCompleted { cached, elapsed_nanos: 9 }),
        RunAction::AwaitDownstream
    );
}

#[test]
fn reads_disabled_never_look_up_and_return_the_downstream_result() {
    for scope in [CacheScope::Always, CacheScope::Successful, CacheScope::Never] {
        let runner = runner(false, true, CacheContentBehavior::Defer);
        let plan = runner.plan(scope);
        assert!(!plan.speculate);
        let (mut run, first) = Run::start(plan);
        assert_eq!(first, RunAction::AwaitDownstream);
        assert_eq!(
            run.step(RunEvent::LookupCompleted { cached: Some(hit(0)), elapsed_nanos: 1 }),
            RunAction::AwaitDownstream
        );
        assert_eq!(run.step(RunEvent::DelayElapsed), RunAction::AwaitDownstream);
        let outcome = finish(run.step(RunEvent::DownstreamCompleted(Ok(downstream(0)))));
        assert_eq!(outcome.result, Ok(downstream(0)));
        assert!(!outcome.hit);
        assert_eq!(outcome.winner, None);
        assert_eq!(outcome.write_back, scope != CacheScope::Never);
    }
}

#[test]
fn scope_never_neither_reads_nor_writes() {
    let runner = runner(true, true, CacheContentBehavior::Defer);
    let (mut run, first) = Run::start(runner.plan(CacheScope::Never));
    assert_eq!(first, RunAction::AwaitDownstream);
    let outcome = finish(run.step(RunEvent::DownstreamCompleted(Ok(downstream(0)))));
    assert!(!outcome.write_back);
}

#[test]
fn failures_are_written_only_under_always() {
    for (scope, exit_code, expected) in [
        (CacheScope::Always, 0, true),
        (CacheScope::Always, 1, true),
        (CacheScope::Always, -1, true),
        (CacheScope::Successful, 0, true),
        (CacheScope::Successful, 1, false),
        (CacheScope::Successful, -1, false),
        (CacheScope::Never, 0, false),
        (CacheScope::Never, 1, false),
    ] {
        let runner = runner(true, true, CacheContentBehavior::Defer);
        let (mut run, _) = Run::start(runner.plan(scope));
        run.step(RunEvent::DelayElapsed);
        let outcome = finish(run.step(RunEvent::DownstreamCompleted(Ok(downstream(exit_code)))));
        assert_eq!(outcome.write_back, expected, "{:?} {}", scope, exit_code);
    }
    let read_only = runner(true, false, CacheContentBehavior::Defer);
    let (mut run, _) = Run::start(read_only.plan(CacheScope::Always));
    run.step(RunEvent::DelayElapsed);
    assert!(!finish(run.step(RunEvent::DownstreamCompleted(Ok(downstream(0))))).write_back);
}

/// Reports the three completions in the order of their times and returns the winner.
fn race(lookup: u64, downstream_at: u64, delay: u64, cached: Option<ExecutionResult>) -> RunOutcome {
    let runner = runner(true, true, CacheContentBehavior::Defer);
    let (mut run, _) = Run::start(runner.plan(CacheScope::Successful));
    let seen = downstream_at.max(delay);
    let mut events = vec![
        (lookup, 0, RunEvent::LookupCompleted { cached, elapsed_nanos: lookup as u128 }),
        (delay, 1, RunEvent::DelayElapsed),
        (seen, 2, RunEvent::DownstreamCompleted(Ok(downstream(0)))),
    ];
    events.sort_by_key(|(at, order, _)| (*at, *order));
    for (_, _, event) in events {
        if let RunAction::Finish(outcome) = run.step(event) {
            return outcome;
        }
    }
    panic!("the run did not finish");
}

#[test]
fn winner_is_whoever_completes_first_after_the_delay() {
    let remote = Some(SpeculationWinner::RemoteFirst);
    let local = Some(SpeculationWinner::LocalFirst);
    // The lookup completes within the delay.
    assert_eq!(race(10, 20, 50, Some(hit(0))).winner, remote);
    assert!(race(10, 20, 50, Some(hit(0))).hit);
    assert_eq!(race(10, 5, 50, Some(hit(0))).winner, remote);
    // The lookup completes after the delay and before the downstream runner.
    assert_eq!(race(60, 100, 50, Some(hit(0))).winner, remote);
    // The downstream runner completes after the delay and before the lookup.
    assert_eq!(race(100, 60, 50, Some(hit(0))).winner, local);
    assert!(!race(100, 60, 50, Some(hit(0))).hit);
    // The downstream runner was done long before the delay was over: it is seen then.
    assert_eq!(race(60, 5, 50, Some(hit(0))).winner, local);
    assert_eq!(race(40, 5, 50, Some(hit(0))).winner, remote);
    // A miss that completes first still counts for the cache, and downstream answers.
    let outcome = race(10, 20, 50, None);
    assert_eq!(outcome.winner, remote);
    assert!(!outcome.hit);
    assert_eq!(outcome.result, Ok(downstream(0)));
    // No delay at all.
    assert_eq!(race(3, 2, 0, Some(hit(0))).winner, local);
    assert_eq!(race(2, 3, 0, Some(hit(0))).winner, remote);
}
