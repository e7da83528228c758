//! Decision core of a remote action-cache middleware.
//!
//! A cached runner sits between a caller and the runner that executes processes. For each
//! request it may look the action up in a remote cache, racing the lookup against the
//! execution, and it may write the result of an execution back. This library takes every
//! decision of such a runner and performs none of its waiting: the caller awaits, sleeps,
//! stores and sends, and reports what happened.
//!
//! - [`run`] decides whose result a request returns and whether it is written back.
//! - [`lookup`] decides what a response of the cache amounts to.
//! - [`manifest`] builds the cache entry for a result from the directory trie of its
//!   outputs, together with the closure of digests the entry refers to.
//! - [`write_back`] orders the steps of a write-back.
//! - [`runner`] holds the configuration and counts failures, and [`warnings`] decides
//!   which of them deserve a warning.

pub mod closure;
pub mod digest;
pub mod lookup;
pub mod manifest;
pub mod metrics;
pub mod path;
pub mod reload;
pub mod result;
pub mod run;
pub mod runner;
pub mod status;
pub mod text;
pub mod trie;
pub mod warnings;
pub mod write_back;

pub use runner::CommandRunner;
pub use warnings::RemoteCacheWarningsBehavior;
