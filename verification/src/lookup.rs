//! One cache lookup, told as a state machine: the call, the reading of the manifest it
//! returns, and the check that what the manifest refers to is there. The caller performs
//! each action and reports how it ended.

use crate::digest::Digest;
use crate::manifest::{first_missing, reified, MissingDigest, ResultManifest};
use crate::metrics::Metric;
use crate::result::{CacheContentBehavior, ExecutionResult, Platform};
use crate::status::{rpc_status, RpcStatus, StatusCode};
use vstd::prelude::*;

verus! {

/// The call that asks the cache for the result of an action.
#[derive(Clone, Debug, PartialEq, Eq)]
pub struct GetActionResultRequest {
    pub instance_name: String,
    pub action_digest: Digest,
}

/// Why a lookup failed.
#[derive(Clone, Debug, PartialEq, Eq)]
pub enum LookupFailure {
    /// The call ended with a status other than success and "not found".
    Rpc(RpcStatus),
    /// The manifest that the cache returned lacks a digest.
    Manifest(MissingDigest),
    /// The outputs that the manifest names could not be loaded.
    OutputRoots(String),
    /// Whether the content is there could not be established.
    ContentValidation(String),
}

/// How a lookup ended.
#[derive(Clone, Debug, PartialEq, Eq)]
pub enum LookupVerdict {
    /// The cache holds a result, and its content passed the check that was asked for.
    Cached(ExecutionResult),
    /// The cache holds no usable entry.
    Uncached,
    /// The lookup failed.
    Failed(LookupFailure),
}

impl LookupVerdict {
    /// The verdict as a result: a failure is an error, anything else the entry if any.
    pub fn into_result(self) -> (r: Result<Option<ExecutionResult>, LookupFailure>)
        ensures
            r == match self {
                LookupVerdict::Cached(result) => Ok::<Option<ExecutionResult>, LookupFailure>(
                    Some(result),
                ),
                LookupVerdict::Uncached => Ok(None),
                LookupVerdict::Failed(failure) => Err(failure),
            },
    {
        match self {
            LookupVerdict::Cached(result) => Ok(Some(result)),
            LookupVerdict::Uncached => Ok(None),
            LookupVerdict::Failed(failure) => Err(failure),
        }
    }
}

/// Where a lookup stands.
#[derive(Clone, Debug, PartialEq, Eq)]
pub enum Lookup {
    /// The call is under way.
    AwaitingResponse { behavior: CacheContentBehavior, platform: Platform },
    /// The outputs that the manifest names are being merged into one trie.
    AwaitingOutputRoot { behavior: CacheContentBehavior, platform: Platform, manifest: ResultManifest },
    /// The content that the result refers to is being checked.
    AwaitingContentCheck { result: ExecutionResult },
    /// The verdict has been handed out.
    Finished,
}

/// How an action of a lookup ended.
#[derive(Debug, PartialEq, Eq)]
pub enum LookupEvent {
    /// The call returned a manifest, or a status.
    Response(Result<ResultManifest, RpcStatus>),
    /// The manifest's outputs were merged into the trie with this root digest, or not.
    OutputRoot(Result<Digest, String>),
    /// Everything the result refers to is there, or something is not; or the check failed.
    ContentChecked(Result<bool, String>),
}

/// What the caller of a lookup does next.
#[derive(Clone, Debug, PartialEq, Eq)]
pub enum LookupAction {
    /// Merge the outputs that the manifest in the state names into one trie.
    LoadOutputRoot,
    /// Check that the two files and everything in and below the directory are in the
    /// store; fetch what is not where `fetch` is set.
    CheckContent { fetch: bool, files: [Digest; 2], directory: Digest },
    /// The lookup is over.
    Finish(LookupVerdict),
    /// Nothing: the event was not waited for.
    Nothing,
}

/// The state and the action that follow once the manifest's outputs are known to lie
/// under `root`.
pub open spec fn after_output_root(
    behavior: CacheContentBehavior,
    platform: Platform,
    manifest: ResultManifest,
    root: Digest,
) -> (Lookup, LookupAction) {
    match reified(manifest@, root, platform) {
        Err(missing) => (
            Lookup::Finished,
            LookupAction::Finish(LookupVerdict::Failed(LookupFailure::Manifest(missing))),
        ),
        Ok(result) => match behavior {
            CacheContentBehavior::Defer => (
                Lookup::Finished,
                LookupAction::Finish(LookupVerdict::Cached(result)),
            ),
            _ => (
                Lookup::AwaitingContentCheck { result },
                LookupAction::CheckContent {
                    fetch: behavior == CacheContentBehavior::Fetch,
                    files: [result.stdout_digest, result.stderr_digest],
                    directory: result.output_directory,
                },
            ),
        },
    }
}

/// The state and the action that follow when `event` is reported in state `lookup`. An
/// event that the state does not wait for changes nothing.
pub open spec fn next(lookup: Lookup, event: LookupEvent) -> (Lookup, LookupAction) {
    match (lookup, event) {
        (Lookup::AwaitingResponse { behavior, platform }, LookupEvent::Response(Ok(manifest))) => {
            match first_missing(manifest@) {
                Some(missing) => (
                    Lookup::Finished,
                    LookupAction::Finish(LookupVerdict::Failed(LookupFailure::Manifest(missing))),
                ),
                None => (
                    Lookup::AwaitingOutputRoot { behavior, platform, manifest },
                    LookupAction::LoadOutputRoot,
                ),
            }
        },
        (Lookup::AwaitingResponse { .. }, LookupEvent::Response(Err(status))) => (
            Lookup::Finished,
            LookupAction::Finish(
                if status.code == StatusCode::NotFound {
                    LookupVerdict::Uncached
                } else {
                    LookupVerdict::Failed(LookupFailure::Rpc(status))
                },
            ),
        ),
        (
            Lookup::AwaitingOutputRoot { behavior, platform, manifest },
            LookupEvent::OutputRoot(Ok(root)),
        ) => after_output_root(behavior, platform, manifest, root),
        (Lookup::AwaitingOutputRoot { .. }, LookupEvent::OutputRoot(Err(e))) => (
            Lookup::Finished,
            LookupAction::Finish(LookupVerdict::Failed(LookupFailure::OutputRoots(e))),
        ),
        (Lookup::AwaitingContentCheck { result }, LookupEvent::ContentChecked(Ok(present))) => (
            Lookup::Finished,
            LookupAction::Finish(
                if present {
                    LookupVerdict::Cached(result)
                } else {
                    LookupVerdict::Uncached
                },
            ),
        ),
        (Lookup::AwaitingContentCheck { .. }, LookupEvent::ContentChecked(Err(e))) => (
            Lookup::Finished,
            LookupAction::Finish(LookupVerdict::Failed(LookupFailure::ContentValidation(e))),
        ),
        _ => (lookup, LookupAction::Nothing),
    }
}

impl Lookup {
    /// Begins a lookup of `action_digest`: the state that waits for the response, the call
    /// to make, and the counter to bump for having made it.
    pub fn start(
        action_digest: Digest,
        instance_name: String,
        platform: Platform,
        behavior: CacheContentBehavior,
    ) -> (r: (Lookup, GetActionResultRequest, Metric))
        ensures
            r.0 == (Lookup::AwaitingResponse { behavior, platform }),
            r.1 == (GetActionResultRequest { instance_name, action_digest }),
            r.2 == Metric::RemoteCacheRequests,
    {
        (
            Lookup::AwaitingResponse { behavior, platform },
            GetActionResultRequest { instance_name, action_digest },
            Metric::RemoteCacheRequests,
        )
    }

    /// Takes in what the call to the cache returned, as the transport hands it over, and
    /// says what to do next: what `step` says for that response, whatever code and message
    /// the transport's status turns out to hold.
    pub fn respond(self, response: Result<ResultManifest, tonic::Status>) -> (r: (
        Lookup,
        LookupAction,
    ))
        ensures
            match response {
                Ok(manifest) => r == next(self, LookupEvent::Response(Ok(manifest))),
                Err(_) => exists|status: RpcStatus|
                    r == #[trigger] next(self, LookupEvent::Response(Err(status))),
            },
    {
        match response {
            Ok(manifest) => self.step(LookupEvent::Response(Ok(manifest))),
            Err(status) => self.step(LookupEvent::Response(Err(rpc_status(&status)))),
        }
    }

    /// Takes in how the last action ended and says what to do next.
    pub fn step(self, event: LookupEvent) -> (r: (Lookup, LookupAction))
        ensures
            r == next(self, event),
    {
        match self {
            Lookup::AwaitingResponse { behavior, platform } => match event {
                LookupEvent::Response(Ok(manifest)) => match manifest.missing_digest() {
                    Some(missing) => (
                        Lookup::Finished,
                        LookupAction::Finish(
                            LookupVerdict::Failed(LookupFailure::Manifest(missing)),
                        ),
                    ),
                    None => (
                        Lookup::AwaitingOutputRoot { behavior, platform, manifest },
                        LookupAction::LoadOutputRoot,
                    ),
                },
                LookupEvent::Response(Err(status)) => {
                    let verdict = if status.is_not_found() {
                        LookupVerdict::Uncached
                    } else {
                        LookupVerdict::Failed(LookupFailure::Rpc(status))
                    };
                    (Lookup::Finished, LookupAction::Finish(verdict))
                },
                _ => (Lookup::AwaitingResponse { behavior, platform }, LookupAction::Nothing),
            },
            Lookup::AwaitingOutputRoot { behavior, platform, manifest } => match event {
                LookupEvent::OutputRoot(Ok(root)) => match manifest.reify(root, platform) {
                    Err(missing) => (
                        Lookup::Finished,
                        LookupAction::Finish(
                            LookupVerdict::Failed(LookupFailure::Manifest(missing)),
                        ),
                    ),
                    Ok(result) => match behavior {
                        CacheContentBehavior::Defer => (
                            Lookup::Finished,
                            LookupAction::Finish(LookupVerdict::Cached(result)),
                        ),
                        CacheContentBehavior::Fetch => (
                            Lookup::AwaitingContentCheck { result },
                            LookupAction::CheckContent {
                                fetch: true,
                                files: [result.stdout_digest, result.stderr_digest],
                                directory: result.output_directory,
                            },
                        ),
                        CacheContentBehavior::Validate => (
                            Lookup::AwaitingContentCheck { result },
                            LookupAction::CheckContent {
                                fetch: false,
                                files: [result.stdout_digest, result.stderr_digest],
                                directory: result.output_directory,
                            },
                        ),
                    },
                },
                LookupEvent::OutputRoot(Err(e)) => (
                    Lookup::Finished,
                    LookupAction::Finish(LookupVerdict::Failed(LookupFailure::OutputRoots(e))),
                ),
                _ => (
                    Lookup::AwaitingOutputRoot { behavior, platform, manifest },
                    LookupAction::Nothing,
                ),
            },
            Lookup::AwaitingContentCheck { result } => match event {
                LookupEvent::ContentChecked(Ok(present)) => {
                    let verdict = if present {
                        LookupVerdict::Cached(result)
                    } else {
                        LookupVerdict::Uncached
                    };
                    (Lookup::Finished, LookupAction::Finish(verdict))
                },
                LookupEvent::ContentChecked(Err(e)) => (
                    Lookup::Finished,
                    LookupAction::Finish(
                        LookupVerdict::Failed(LookupFailure::ContentValidation(e)),
                    ),
                ),
                _ => (Lookup::AwaitingContentCheck { result }, LookupAction::Nothing),
            },
            Lookup::Finished => (Lookup::Finished, LookupAction::Nothing),
        }
    }
}

} // verus!
