//! Waiting on a started app or command: the health URL, and the decisions
//! taken on each turn of the polling loops whose waiting and probing the
//! front end performs.

use vstd::prelude::*;
use crate::text::{chars_of, concat, has_prefix, starts_with, string_of, trim_end, trim_start,
    trimmed_end, trimmed_start};

verus! {

/// The health URL for an app at `base`: an absolute `http://` or `https://`
/// `path` as it is; otherwise `base` without trailing `/`, one `/`, and
/// `path` without leading `/`.
pub open spec fn health_url_of(base: Seq<char>, path: Seq<char>) -> Seq<char> {
    if has_prefix(path, "http://"@) || has_prefix(path, "https://"@) {
        path
    } else {
        trim_end(base, '/') + "/"@ + trim_start(path, '/')
    }
}

/// The URL that the health check requests.
pub fn join_url(base: &str, path: &str) -> (r: String)
    ensures
        r@ == health_url_of(base@, path@),
{
    if starts_with(path, "http://") || starts_with(path, "https://") {
        return path.to_owned();
    }
    let b = trimmed_end(&chars_of(base), '/');
    let p = trimmed_start(&chars_of(path), '/');
    let head = concat(string_of(b.as_slice()).as_str(), "/");
    concat(head.as_str(), string_of(p.as_slice()).as_str())
}

/// Seconds to wait for an app's health URL when the config gives none.
pub const DEFAULT_HEALTH_TIMEOUT_SECONDS: u64 = 45;

/// Milliseconds between health probes.
pub const HEALTH_RETRY_MILLIS: u64 = 750;

/// Milliseconds between checks on a command with a timeout.
pub const COMMAND_POLL_MILLIS: u64 = 200;

/// Whether `elapsed_nanos` is still before a deadline `timeout_seconds` after the start.
pub open spec fn before_deadline(elapsed_nanos: u128, timeout_seconds: u64) -> bool {
    elapsed_nanos < timeout_seconds * 1_000_000_000
}

/// What the health-check loop learned last.
pub enum HealthEvent {
    /// The loop is about to go round; this long has passed since it began.
    Tick { elapsed_nanos: u128 },
    /// A probe came back; `success` when the response status was a success.
    Answered { success: bool },
}

/// What the health-check loop does next.
#[derive(Debug, PartialEq, Eq)]
pub enum HealthAction {
    /// Request the health URL.
    Probe,
    /// Stop: the app is healthy.
    Healthy,
    /// Sleep this long, then go round again.
    Retry { wait_millis: u64 },
    /// Stop: the deadline passed without a successful probe.
    TimedOut,
}

/// The next step of the health-check loop.
pub fn health_step(timeout_seconds: u64, event: HealthEvent) -> (r: HealthAction)
    ensures
        r == (match event {
            HealthEvent::Tick { elapsed_nanos } => if before_deadline(elapsed_nanos, timeout_seconds) {
                HealthAction::Probe
            } else {
                HealthAction::TimedOut
            },
            HealthEvent::Answered { success } => if success {
                HealthAction::Healthy
            } else {
                HealthAction::Retry { wait_millis: HEALTH_RETRY_MILLIS }
            },
        }),
{
    match event {
        HealthEvent::Tick { elapsed_nanos } => {
            let limit: u128 = (timeout_seconds as u128) * 1_000_000_000;
            if elapsed_nanos < limit {
                HealthAction::Probe
            } else {
                HealthAction::TimedOut
            }
        },
        HealthEvent::Answered { success } => {
            if success {
                HealthAction::Healthy
            } else {
                HealthAction::Retry { wait_millis: HEALTH_RETRY_MILLIS }
            }
        },
    }
}

/// What the loop waiting on a command with a timeout learned last.
pub enum WaitEvent {
    /// The loop is about to go round; this long has passed since the command started.
    Tick { elapsed_nanos: u128 },
    /// A check on the command came back: `None` while it runs, else whether it exited with success.
    Checked { exit_success: Option<bool> },
}

/// What the loop waiting on a command does next.
#[derive(Debug, PartialEq, Eq)]
pub enum WaitAction {
    /// Check whether the command has exited.
    Check,
    /// Stop: the command succeeded.
    Succeeded,
    /// Stop: the command exited with failure.
    Failed,
    /// Sleep this long, then go round again.
    Sleep { millis: u64 },
    /// Stop: kill the command, it ran past its timeout.
    Kill,
}

/// The next step of the loop waiting on a command with a timeout.
pub fn wait_step(timeout_seconds: u64, event: WaitEvent) -> (r: WaitAction)
    ensures
        r == (match event {
            WaitEvent::Tick { elapsed_nanos } => if before_deadline(elapsed_nanos, timeout_seconds) {
                WaitAction::Check
            } else {
                WaitAction::Kill
            },
            WaitEvent::Checked { exit_success } => match exit_success {
                Some(true) => WaitAction::Succeeded,
                Some(false) => WaitAction::Failed,
                None => WaitAction::Sleep { millis: COMMAND_POLL_MILLIS },
            },
        }),
{
    match event {
        WaitEvent::Tick { elapsed_nanos } => {
            let limit: u128 = (timeout_seconds as u128) * 1_000_000_000;
            if elapsed_nanos < limit {
                WaitAction::Check
            } else {
                WaitAction::Kill
            }
        },
        WaitEvent::Checked { exit_success } => match exit_success {
            Some(true) => WaitAction::Succeeded,
            Some(false) => WaitAction::Failed,
            None => WaitAction::Sleep { millis: COMMAND_POLL_MILLIS },
        },
    }
}

} // verus!
