//! The project configuration read from `.devtree.yml`, and what follows
//! from it alone: app URLs, launch commands, which app to start, which setup
//! steps to skip, and the starter config that `init` writes.

use vstd::prelude::*;
use crate::branch::{sanitize_branch, sanitized};
use crate::error::DevtreeError;
use crate::table::Table;
use crate::text::{concat, text_lt};

verus! {

/// Local env files to copy into new worktrees.
pub struct EnvConfig {
    /// Files that must exist in the repo; a missing one fails `create`.
    pub copy: Vec<String>,
    /// Files copied when present and skipped when absent.
    pub optional_copy: Vec<String>,
}

/// One setup command.
pub struct SetupStep {
    pub name: String,
    pub run: String,
    pub cwd: String,
    pub env: Table<String>,
    pub if_file_exists: Option<String>,
    pub if_file_missing: Option<String>,
    pub timeout_seconds: Option<u64>,
}

/// How an app is reached.
pub enum UrlConfig {
    /// Through `portless <name> <command>`; the name defaults to the project name.
    Portless { name: Option<String> },
    /// At a fixed URL; the command runs as written.
    RawPort { url: String },
    /// Not reachable by URL (`provider: none`); the command runs as written.
    NoUrl,
}

impl Default for UrlConfig {
    /// Portless under the project name.
    fn default() -> (r: Self)
        ensures
            r == (UrlConfig::Portless { name: None }),
    {
        UrlConfig::Portless { name: None }
    }
}

/// One app that `start` can launch.
pub struct AppConfig {
    pub command: String,
    pub cwd: String,
    pub env: Table<String>,
    pub url: UrlConfig,
    pub health_url: Option<String>,
    pub health_timeout_seconds: Option<u64>,
}

/// The whole configuration.
pub struct Config {
    pub name: String,
    pub worktrees_root: String,
    pub env: EnvConfig,
    pub setup: Vec<SetupStep>,
    pub apps: Table<AppConfig>,
}

/// The Portless route name: the configured one, else the project name.
pub open spec fn portless_name(project: Seq<char>, name: Option<String>) -> Seq<char> {
    match name {
        Some(n) => n@,
        None => project,
    }
}

/// The URL recorded for an app with URL provider `url` in project `project`
/// on branch `branch`.
pub open spec fn url_of(project: Seq<char>, branch: Seq<char>, url: UrlConfig) -> Seq<char> {
    match url {
        UrlConfig::Portless { name } => "https://"@ + sanitized(branch) + "."@ + portless_name(project, name)
            + ".localhost"@,
        UrlConfig::RawPort { url } => url@,
        UrlConfig::NoUrl => "none"@,
    }
}

/// The command that launches an app with URL provider `url` and command `command`.
pub open spec fn launch_command_of(project: Seq<char>, command: Seq<char>, url: UrlConfig) -> Seq<char> {
    match url {
        UrlConfig::Portless { name } => "portless "@ + portless_name(project, name) + " "@ + command,
        _ => command,
    }
}

fn portless_route(config: &Config, name: &Option<String>) -> (r: String)
    ensures
        r@ == portless_name(config.name@, *name),
{
    match name {
        Some(n) => n.clone(),
        None => config.name.clone(),
    }
}

/// The URL of `app` when started on `branch`.
pub fn app_url(config: &Config, branch: &str, app: &AppConfig) -> (r: String)
    ensures
        r@ == url_of(config.name@, branch@, app.url),
{
    match &app.url {
        UrlConfig::Portless { name } => {
            let route = portless_route(config, name);
            let s = concat("https://", sanitize_branch(branch).as_str());
            let s = concat(s.as_str(), ".");
            let s = concat(s.as_str(), route.as_str());
            concat(s.as_str(), ".localhost")
        },
        UrlConfig::RawPort { url } => url.clone(),
        UrlConfig::NoUrl => "none".to_owned(),
    }
}

/// The command line that launches `app`.
pub fn command_for_app(config: &Config, app: &AppConfig) -> (r: String)
    ensures
        r@ == launch_command_of(config.name@, app.command@, app.url),
{
    match &app.url {
        UrlConfig::Portless { name } => {
            let route = portless_route(config, name);
            let s = concat("portless ", route.as_str());
            let s = concat(s.as_str(), " ");
            concat(s.as_str(), app.command.as_str())
        },
        _ => app.command.clone(),
    }
}

/// The app `start` launches: the one asked for; else `default` if it is
/// configured; else the first configured app in name order.
pub fn resolve_app_name(config: &Config, requested: Option<&str>) -> (r: Result<String, DevtreeError>)
    ensures
        requested matches Some(a) ==> (r matches Ok(n) && n@ == a@),
        requested is None && config.apps@.contains_key("default"@) ==> (r matches Ok(n) && n@
            == "default"@),
        requested is None ==> (r matches Ok(n) ==> config.apps@.contains_key(n@)),
        requested is None && !config.apps@.contains_key("default"@) ==> (match r {
            Ok(n) => config.apps@.contains_key(n@) && forall|q: Seq<char>| #[trigger]
                config.apps@.contains_key(q) ==> q == n@ || text_lt(n@, q),
            Err(e) => config.apps@.dom().is_empty() && e == DevtreeError::NoAppsConfigured,
        }),
{
    if let Some(app) = requested {
        return Ok(app.to_owned());
    }
    if config.apps.contains_key("default") {
        return Ok("default".to_owned());
    }
    match config.apps.first_key() {
        Some(k) => Ok(k.clone()),
        None => Err(DevtreeError::NoAppsConfigured),
    }
}

/// Whether a setup step is skipped, given whether its `ifFileExists` target
/// is present and whether its `ifFileMissing` target is present (each
/// consulted only when the step names one).
pub fn should_skip_step(step: &SetupStep, exists_target_present: bool, missing_target_present: bool) -> (r: bool)
    ensures
        r == ((step.if_file_exists is Some && !exists_target_present) || (step.if_file_missing is Some
            && missing_target_present)),
{
    if step.if_file_exists.is_some() && !exists_target_present {
        return true;
    }
    if step.if_file_missing.is_some() && missing_target_present {
        return true;
    }
    false
}

/// The starter `.devtree.yml` for a repository named `name`.
pub open spec fn config_template(name: Seq<char>) -> Seq<char> {
    "name: "@ + name + "\nworktreesRoot: ../"@ + name + "-worktrees\n\nenv:\n  copy: []\n  optionalCopy:\n    - .env.local\n\nsetup:\n  - name: install dependencies\n    run: pnpm install --frozen-lockfile\n\napps:\n  web:\n    cwd: .\n    command: pnpm dev\n    url:\n      provider: portless\n      name: "@ + name + "\n    healthUrl: /\n"@
}

/// The starter config text for a repository named `name`.
pub fn starter_config(name: &str) -> (r: String)
    ensures
        r@ == config_template(name@),
{
    let s = concat("name: ", name);
    let s = concat(s.as_str(), "\nworktreesRoot: ../");
    let s = concat(s.as_str(), name);
    let s = concat(s.as_str(), "-worktrees\n\nenv:\n  copy: []\n  optionalCopy:\n    - .env.local\n\nsetup:\n  - name: install dependencies\n    run: pnpm install --frozen-lockfile\n\napps:\n  web:\n    cwd: .\n    command: pnpm dev\n    url:\n      provider: portless\n      name: ");
    let s = concat(s.as_str(), name);
    concat(s.as_str(), "\n    healthUrl: /\n")
}

} // verus!
