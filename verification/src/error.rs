//! Errors of devtree's commands.

use vstd::prelude::*;
use crate::text::{concat, decimal, decimal_text};

verus! {

/// Why a command was refused or failed.
#[derive(Debug, PartialEq, Eq)]
pub enum DevtreeError {
    /// `init` found a config file and was not told to overwrite it.
    ConfigExists { path: String },
    /// A file listed under `env.copy` does not exist.
    RequiredEnvMissing { path: String },
    /// The branch has no tracked worktree.
    UnknownWorktree { branch: String },
    /// The app has no tracked process under the branch.
    UnknownApp { branch: String, app: String },
    /// The app is not in the config.
    AppNotConfigured { app: String },
    /// The config lists no apps.
    NoAppsConfigured,
    /// The user state directory could not be resolved.
    NoStateDir,
    /// The user state directory's path is not valid Unicode.
    StateDirNotUnicode,
    /// `clean` found apps still running; their names, joined by `, `.
    AppsRunning { names: String },
    /// `clean` found local changes and was not forced.
    WorktreeDirty,
    /// `git status` failed in the worktree.
    GitStatusFailed { path: String },
    /// The health URL did not answer with success in time.
    HealthTimeout { seconds: u64, url: String },
    /// A setup command ran past its timeout.
    CommandTimedOut { seconds: u64 },
}

} // verus!

verus! {

/// The text that reports `e`.
pub open spec fn error_text(e: DevtreeError) -> Seq<char> {
    match e {
        DevtreeError::ConfigExists { path } => path@ + " already exists. Use --force to overwrite it."@,
        DevtreeError::RequiredEnvMissing { path } => "required env file does not exist: "@ + path@,
        DevtreeError::UnknownWorktree { branch } => "unknown worktree `"@ + branch@ + "`. Run `devtree create "@
            + branch@ + "` first."@,
        DevtreeError::UnknownApp { branch, app } => "unknown app `"@ + branch@ + "/"@ + app@ + "`"@,
        DevtreeError::AppNotConfigured { app } => "app `"@ + app@ + "` is not configured"@,
        DevtreeError::NoAppsConfigured => "no apps configured"@,
        DevtreeError::NoStateDir => "could not resolve user state directory"@,
        DevtreeError::StateDirNotUnicode => "user state directory path is not valid Unicode"@,
        DevtreeError::AppsRunning { names } => "stop running apps before clean: "@ + names@,
        DevtreeError::WorktreeDirty => "worktree has local changes. Use --force to remove it anyway."@,
        DevtreeError::GitStatusFailed { path } => "git status failed in "@ + path@,
        DevtreeError::HealthTimeout { seconds, url } => "health check did not pass within "@ + decimal(
            seconds as nat,
        ) + "s: "@ + url@,
        DevtreeError::CommandTimedOut { seconds } => "command timed out after "@ + decimal(seconds as nat)
            + "s"@,
    }
}

impl DevtreeError {
    /// The text that reports this error.
    pub fn message(&self) -> (r: String)
        ensures
            r@ == error_text(*self),
    {
        match self {
            DevtreeError::ConfigExists { path } => concat(path.as_str(), " already exists. Use --force to overwrite it."),
            DevtreeError::RequiredEnvMissing { path } => concat("required env file does not exist: ", path.as_str()),
            DevtreeError::UnknownWorktree { branch } => {
                let s = concat("unknown worktree `", branch.as_str());
                let s = concat(s.as_str(), "`. Run `devtree create ");
                let s = concat(s.as_str(), branch.as_str());
                concat(s.as_str(), "` first.")
            },
            DevtreeError::UnknownApp { branch, app } => {
                let s = concat("unknown app `", branch.as_str());
                let s = concat(s.as_str(), "/");
                let s = concat(s.as_str(), app.as_str());
                concat(s.as_str(), "`")
            },
            DevtreeError::AppNotConfigured { app } => {
                let s = concat("app `", app.as_str());
                concat(s.as_str(), "` is not configured")
            },
            DevtreeError::NoAppsConfigured => "no apps configured".to_owned(),
            DevtreeError::NoStateDir => "could not resolve user state directory".to_owned(),
            DevtreeError::StateDirNotUnicode => "user state directory path is not valid Unicode".to_owned(),
            DevtreeError::AppsRunning { names } => concat("stop running apps before clean: ", names.as_str()),
            DevtreeError::WorktreeDirty => "worktree has local changes. Use --force to remove it anyway.".to_owned(),
            DevtreeError::GitStatusFailed { path } => concat("git status failed in ", path.as_str()),
            DevtreeError::HealthTimeout { seconds, url } => {
                let s = concat("health check did not pass within ", decimal_text(*seconds).as_str());
                let s = concat(s.as_str(), "s: ");
                concat(s.as_str(), url.as_str())
            },
            DevtreeError::CommandTimedOut { seconds } => {
                let s = concat("command timed out after ", decimal_text(*seconds).as_str());
                concat(s.as_str(), "s")
            },
        }
    }
}

} // verus!
