//! Writing a result back to the cache, told as a state machine: upload the action, build
//! the manifest, make sure the cache holds everything the manifest refers to, and only
//! then publish it. The caller performs each action and reports how it ended.

use crate::digest::Digest;
use crate::manifest::{ManifestError, ResultManifest};
use crate::metrics::Metric;
use crate::status::{rpc_status, RpcStatus};
use vstd::prelude::*;

verus! {

/// What identifies the entry to write.
#[derive(Clone, Debug, PartialEq, Eq)]
pub struct WriteTarget {
    pub instance_name: String,
    pub action_digest: Digest,
    pub command_digest: Digest,
}

/// The call that stores a manifest in the cache.
#[derive(Clone, Debug, PartialEq, Eq)]
pub struct UpdateActionResultRequest {
    pub instance_name: String,
    pub action_digest: Digest,
    pub action_result: ResultManifest,
}

/// Why a result could not be written back.
#[derive(Clone, Debug, PartialEq, Eq)]
pub enum WriteError {
    /// The store failed.
    Store(String),
    /// The manifest could not be built.
    Manifest(ManifestError),
    /// The call to the cache failed.
    Rpc(RpcStatus),
}

/// Where a write-back stands.
#[derive(Clone, Debug, PartialEq, Eq)]
pub enum WriteBack {
    /// The action and the command are being uploaded.
    UploadingAction { target: WriteTarget },
    /// The manifest and its closure are being built.
    BuildingManifest { target: WriteTarget },
    /// The closure is being uploaded.
    EnsuringClosure { target: WriteTarget, manifest: ResultManifest },
    /// The manifest is being published.
    Publishing,
    /// The write-back is over.
    Finished,
}

/// How an action of a write-back ended.
#[derive(Debug, PartialEq, Eq)]
pub enum WriteEvent {
    /// The action and the command are in the remote store, or the upload failed.
    ActionUploaded(Result<(), WriteError>),
    /// The manifest was built, together with the closure of digests it refers to; or not.
    ManifestBuilt(Result<(ResultManifest, Vec<Digest>), WriteError>),
    /// The remote store holds every digest of the closure, or the upload failed.
    ClosureEnsured(Result<(), WriteError>),
    /// The cache took the manifest, or the call failed.
    Published(Result<(), WriteError>),
}

/// What the caller of a write-back does next.
#[derive(Debug, PartialEq, Eq)]
pub enum WriteAction {
    /// Make sure that the remote store holds the action and the command.
    EnsureActionUploaded { command_digest: Digest, action_digest: Digest },
    /// Build the manifest of the result, and the closure of digests it refers to.
    BuildManifest,
    /// Make sure that the remote store holds each of these digests, and what they hold.
    EnsureRemoteHas(Vec<Digest>),
    /// Publish the manifest.
    UpdateActionResult(UpdateActionResultRequest),
    /// The write-back is over: it succeeded, or failed for this reason.
    Finish(Result<(), WriteError>),
    /// Nothing: the event was not waited for.
    Nothing,
}

/// The state and the action with which a write-back ends early.
pub open spec fn failed(e: WriteError) -> (WriteBack, WriteAction) {
    (WriteBack::Finished, WriteAction::Finish(Err(e)))
}

/// The state and the action that follow when `event` is reported in state `state`. The
/// first failure ends the write-back; an event that the state does not wait for changes
/// nothing.
pub open spec fn next(state: WriteBack, event: WriteEvent) -> (WriteBack, WriteAction) {
    match (state, event) {
        (WriteBack::UploadingAction { target }, WriteEvent::ActionUploaded(Ok(_))) => (
            WriteBack::BuildingManifest { target },
            WriteAction::BuildManifest,
        ),
        (WriteBack::UploadingAction { .. }, WriteEvent::ActionUploaded(Err(e))) => failed(e),
        (WriteBack::BuildingManifest { target }, WriteEvent::ManifestBuilt(Ok(built))) => (
            WriteBack::EnsuringClosure { target, manifest: built.0 },
            WriteAction::EnsureRemoteHas(built.1),
        ),
        (WriteBack::BuildingManifest { .. }, WriteEvent::ManifestBuilt(Err(e))) => failed(e),
        (WriteBack::EnsuringClosure { target, manifest }, WriteEvent::ClosureEnsured(Ok(_))) => (
            WriteBack::Publishing,
            WriteAction::UpdateActionResult(
                UpdateActionResultRequest {
                    instance_name: target.instance_name,
                    action_digest: target.action_digest,
                    action_result: manifest,
                },
            ),
        ),
        (WriteBack::EnsuringClosure { .. }, WriteEvent::ClosureEnsured(Err(e))) => failed(e),
        (WriteBack::Publishing, WriteEvent::Published(Ok(_))) => (
            WriteBack::Finished,
            WriteAction::Finish(Ok(())),
        ),
        (WriteBack::Publishing, WriteEvent::Published(Err(e))) => failed(e),
        _ => (state, WriteAction::Nothing),
    }
}

impl WriteBack {
    /// Begins the write-back of a result under `target`: the first state, the first
    /// action, and the counter to bump for the attempt, however it ends.
    pub fn start(target: WriteTarget) -> (r: (WriteBack, WriteAction, Metric))
        ensures
            r.0 == (WriteBack::UploadingAction { target }),
            r.1 == (WriteAction::EnsureActionUploaded {
                command_digest: target.command_digest,
                action_digest: target.action_digest,
            }),
            r.2 == Metric::RemoteCacheWriteAttempts,
    {
        let action = WriteAction::EnsureActionUploaded {
            command_digest: target.command_digest,
            action_digest: target.action_digest,
        };
        (WriteBack::UploadingAction { target }, action, Metric::RemoteCacheWriteAttempts)
    }

    /// Takes in what the call that publishes the manifest returned, as the transport hands
    /// it over, and says what to do next: what `step` says for that outcome, whatever code
    /// and message the transport's status turns out to hold.
    pub fn published(self, response: Result<(), tonic::Status>) -> (r: (WriteBack, WriteAction))
        ensures
            match response {
                Ok(_) => r == next(self, WriteEvent::Published(Ok(()))),
                Err(_) => exists|status: RpcStatus|
                    r == #[trigger] next(
                        self,
                        WriteEvent::Published(Err(WriteError::Rpc(status))),
                    ),
            },
    {
        match response {
            Ok(_) => self.step(WriteEvent::Published(Ok(()))),
            Err(status) => self.step(
                WriteEvent::Published(Err(WriteError::Rpc(rpc_status(&status)))),
            ),
        }
    }

    /// Takes in how the last action ended and says what to do next.
    pub fn step(self, event: WriteEvent) -> (r: (WriteBack, WriteAction))
        ensures
            r == next(self, event),
    {
        match self {
            WriteBack::UploadingAction { target } => match event {
                WriteEvent::ActionUploaded(Ok(_)) => (
                    WriteBack::BuildingManifest { target },
                    WriteAction::BuildManifest,
                ),
                WriteEvent::ActionUploaded(Err(e)) => (
                    WriteBack::Finished,
                    WriteAction::Finish(Err(e)),
                ),
                _ => (WriteBack::UploadingAction { target }, WriteAction::Nothing),
            },
            WriteBack::BuildingManifest { target } => match event {
                WriteEvent::ManifestBuilt(Ok(built)) => {
                    let (manifest, closure) = built;
                    (
                        WriteBack::EnsuringClosure { target, manifest },
                        WriteAction::EnsureRemoteHas(closure),
                    )
                },
                WriteEvent::ManifestBuilt(Err(e)) => (
                    WriteBack::Finished,
                    WriteAction::Finish(Err(e)),
                ),
                _ => (WriteBack::BuildingManifest { target }, WriteAction::Nothing),
            },
            WriteBack::EnsuringClosure { target, manifest } => match event {
                WriteEvent::ClosureEnsured(Ok(_)) => (
                    WriteBack::Publishing,
                    WriteAction::UpdateActionResult(
                        UpdateActionResultRequest {
                            instance_name: target.instance_name,
                            action_digest: target.action_digest,
                            action_result: manifest,
                        },
                    ),
                ),
                WriteEvent::ClosureEnsured(Err(e)) => (
                    WriteBack::Finished,
                    WriteAction::Finish(Err(e)),
                ),
                _ => (WriteBack::EnsuringClosure { target, manifest }, WriteAction::Nothing),
            },
            WriteBack::Publishing => match event {
                WriteEvent::Published(Ok(_)) => (WriteBack::Finished, WriteAction::Finish(Ok(()))),
                WriteEvent::Published(Err(e)) => (
                    WriteBack::Finished,
                    WriteAction::Finish(Err(e)),
                ),
                _ => (WriteBack::Publishing, WriteAction::Nothing),
            },
            WriteBack::Finished => (WriteBack::Finished, WriteAction::Nothing),
        }
    }
}

/// The state reached from `state` once the first `n` of `events` have been reported.
pub open spec fn state_after(state: WriteBack, events: Seq<WriteEvent>, n: int) -> WriteBack
    decreases n,
{
    if n <= 0 {
        state
    } else {
        next(state_after(state, events, n - 1), events[n - 1]).0
    }
}

/// The action with which the machine answers the event at index `i` of `events`.
pub open spec fn action_at(state: WriteBack, events: Seq<WriteEvent>, i: int) -> WriteAction {
    next(state_after(state, events, i), events[i]).1
}

/// The event at index `j` reports that `manifest` was built together with a closure, and
/// the machine answers it by asking for the upload of exactly that closure.
pub open spec fn closure_requested(
    target: WriteTarget,
    events: Seq<WriteEvent>,
    j: int,
    manifest: ResultManifest,
) -> bool {
    match events[j] {
        WriteEvent::ManifestBuilt(Ok(built)) => built.0 == manifest && action_at(
            WriteBack::UploadingAction { target },
            events,
            j,
        ) == WriteAction::EnsureRemoteHas(built.1),
        _ => false,
    }
}

proof fn lemma_publish_order(target: WriteTarget, events: Seq<WriteEvent>, n: int)
    requires
        0 <= n <= events.len(),
    ensures
        match state_after(WriteBack::UploadingAction { target }, events, n) {
            WriteBack::EnsuringClosure { target: t, manifest } => t == target && exists|j: int|
                0 <= j < n && #[trigger] closure_requested(target, events, j, manifest),
            WriteBack::UploadingAction { target: t } => t == target,
            WriteBack::BuildingManifest { target: t } => t == target,
            _ => true,
        },
    decreases n,
{
    let start = WriteBack::UploadingAction { target };
    if n > 0 {
        lemma_publish_order(target, events, n - 1);
        let before = state_after(start, events, n - 1);
        let after = state_after(start, events, n);
        assert(after == next(before, events[n - 1]).0);
        match after {
            WriteBack::EnsuringClosure { target: t, manifest } => {
                match before {
                    WriteBack::EnsuringClosure { .. } => {
                        let j = choose|j: int|
                            0 <= j < n - 1 && #[trigger] closure_requested(
                                target,
                                events,
                                j,
                                manifest,
                            );
                        assert(0 <= j < n && closure_requested(target, events, j, manifest));
                    },
                    WriteBack::BuildingManifest { .. } => {
                        assert(closure_requested(target, events, n - 1, manifest));
                    },
                    _ => {},
                }
            },
            _ => {},
        }
    }
}

/// A manifest is published only after the upload of its closure has been reported as
/// done: whatever is reported to a write-back and in whatever order, a call that
/// publishes a manifest answers the report that a closure is in the remote store, and
/// the closure whose upload the machine asked for before is the one that was built
/// together with that manifest. The call names the action and the instance that the
/// write-back was started for.
pub proof fn law_publish_after_closure(target: WriteTarget, events: Seq<WriteEvent>, i: int)
    requires
        0 <= i < events.len(),
    ensures
        match action_at(WriteBack::UploadingAction { target }, events, i) {
            WriteAction::UpdateActionResult(request) => {
                &&& events[i] matches WriteEvent::ClosureEnsured(Ok(_))
                &&& request.instance_name == target.instance_name
                &&& request.action_digest == target.action_digest
                &&& exists|j: int|
                    0 <= j < i && #[trigger] closure_requested(
                        target,
                        events,
                        j,
                        request.action_result,
                    )
            },
            _ => true,
        },
{
    lemma_publish_order(target, events, i);
}

} // verus!
