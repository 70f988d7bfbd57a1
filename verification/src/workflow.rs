//! The decisions behind devtree's commands. Each command's disk, process and
//! network work is done by the front end; the functions here say what to
//! run, what to check, which answer to give, and how the tracked state changes.

use vstd::prelude::*;
use crate::branch::{lemma_sanitized_chars, sanitize_branch, sanitized};
use crate::command::{views, CommandSpec, CommandView, env_entries, env_pairs, git_worktree_add,
    git_worktree_remove, kill_command, shell_exec_command, shell_command, worktree_add_view,
    worktree_remove_view};
use crate::config::{AppConfig, Config, launch_command_of, url_of, app_url, command_for_app,
    starter_config, config_template};
use crate::error::DevtreeError;
use crate::health::{DEFAULT_HEALTH_TIMEOUT_SECONDS, health_url_of, join_url};
use crate::host::{Timestamp, state_dir, state_dir_error};
use crate::paths::{config_path, config_file_name, file_name, is_absolute, joined, join_path, log_file,
    log_path_in, path_file_name, resolve_repo_relative};
use crate::state::{AppState, AppView, State, has_app, has_worktree, with_app, with_worktree};
use crate::table::strictly_sorted;
use crate::text::{concat, decimal, decimal_text, text_lt};

verus! {

/// Everything a command works with: the repo, its config and the tracked state.
pub struct ContextState {
    pub repo_root: String,
    /// The repository's key in the state: its canonical Git common dir.
    pub repo_key: String,
    pub config: Config,
    pub state_path: String,
    pub state: State,
}

/// Where the worktree of `branch` goes: the sanitized branch name under the
/// worktrees root, which is taken relative to the repo root unless absolute.
pub open spec fn worktree_dir(root: Seq<char>, worktrees_root: Seq<char>, branch: Seq<char>) -> Seq<char> {
    let base = if is_absolute(worktrees_root) { worktrees_root } else { joined(root, worktrees_root) };
    joined(base, sanitized(branch))
}

/// Where a worktree goes, in terms of plain text. With an absolute worktrees
/// root the repo root plays no part: the directory is the worktrees root, `/`
/// and the sanitized branch. With a relative one it is the repo root, `/`,
/// the worktrees root, `/` and the sanitized branch.
pub proof fn law_worktree_dir_layout(root: Seq<char>, other_root: Seq<char>, worktrees_root: Seq<char>, branch: Seq<char>)
    ensures
        is_absolute(worktrees_root) ==> worktree_dir(root, worktrees_root, branch) == worktree_dir(
            other_root,
            worktrees_root,
            branch,
        ),
        is_absolute(worktrees_root) && worktrees_root.last() != '/' && sanitized(branch).len() > 0
            ==> worktree_dir(root, worktrees_root, branch) == worktrees_root + seq!['/'] + sanitized(branch),
        !is_absolute(worktrees_root) && root.len() > 0 && root.last() != '/' && worktrees_root.len() > 0
            && worktrees_root.last() != '/' && sanitized(branch).len() > 0 ==> worktree_dir(root, worktrees_root, branch)
            == root + seq!['/'] + worktrees_root + seq!['/'] + sanitized(branch),
{
    lemma_sanitized_chars(branch);
    if sanitized(branch).len() > 0 {
        assert(sanitized(branch)[0] != '/');
    }
    if !is_absolute(worktrees_root) && root.len() > 0 && root.last() != '/' && worktrees_root.len() > 0 {
        let base = root + seq!['/'] + worktrees_root;
        assert(base.last() == worktrees_root.last());
    }
}

/// The directory of the worktree for `branch`.
pub fn worktree_path(ctx: &ContextState, branch: &str) -> (r: String)
    ensures
        r@ == worktree_dir(ctx.repo_root@, ctx.config.worktrees_root@, branch@),
{
    let root = resolve_repo_relative(ctx.repo_root.as_str(), ctx.config.worktrees_root.as_str());
    join_path(root.as_str(), sanitize_branch(branch).as_str())
}

/// The recorded path of the tracked worktree for `branch`.
pub fn tracked_worktree_path(ctx: &ContextState, branch: &str) -> (r: Result<String, DevtreeError>)
    ensures
        has_worktree(ctx.state@, ctx.repo_key@, branch@) ==> (r matches Ok(p) && p@
            == ctx.state@[ctx.repo_key@].worktrees[branch@].path),
        !has_worktree(ctx.state@, ctx.repo_key@, branch@) ==> (r matches Err(
            DevtreeError::UnknownWorktree { branch: b },
        ) && b@ == branch@),
{
    match ctx.state.worktree(ctx.repo_key.as_str(), branch) {
        Some(w) => Ok(w.path.clone()),
        None => Err(DevtreeError::UnknownWorktree { branch: branch.to_owned() }),
    }
}

/// The tracked process of `app` in the worktree for `branch`.
pub fn tracked_app_state<'a>(ctx: &'a ContextState, branch: &str, app: &str) -> (r: Result<
    &'a AppState,
    DevtreeError,
>)
    ensures
        has_app(ctx.state@, ctx.repo_key@, branch@, app@) ==> (r matches Ok(a) && a@
            == ctx.state@[ctx.repo_key@].worktrees[branch@].apps[app@]),
        !has_app(ctx.state@, ctx.repo_key@, branch@, app@) ==> (r matches Err(
            DevtreeError::UnknownApp { branch: b, app: n },
        ) && b@ == branch@ && n@ == app@),
{
    match ctx.state.app(ctx.repo_key.as_str(), branch, app) {
        Some(a) => Ok(a),
        None => Err(DevtreeError::UnknownApp { branch: branch.to_owned(), app: app.to_owned() }),
    }
}

/// What `create` runs: the worktree directory, and the `git worktree add`
/// command unless that directory already exists.
pub struct CreatePlan {
    pub worktree_path: String,
    pub git_add: Option<CommandSpec>,
}

/// The plan of `create` for `branch`, started from `from` (default `HEAD`),
/// given whether the worktree directory already exists.
pub fn create_worktree(ctx: &ContextState, branch: &str, from: Option<&str>, worktree_exists: bool) -> (r: CreatePlan)
    ensures
        r.worktree_path@ == worktree_dir(ctx.repo_root@, ctx.config.worktrees_root@, branch@),
        worktree_exists ==> r.git_add is None,
        !worktree_exists ==> (r.git_add matches Some(c) && c@ == worktree_add_view(
            ctx.repo_root@,
            branch@,
            r.worktree_path@,
            match from {
                Some(f) => Some(f@),
                None => None,
            },
        )),
{
    let path = worktree_path(ctx, branch);
    let git_add = if worktree_exists {
        None
    } else {
        Some(git_worktree_add(ctx.repo_root.as_str(), branch, path.as_str(), from))
    };
    CreatePlan { worktree_path: path, git_add }
}

/// One configured env file to bring into a worktree.
pub struct EnvCopy {
    /// The path as listed in the config.
    pub relative: String,
    /// The file in the repo root.
    pub source: String,
    /// The file in the worktree.
    pub destination: String,
    /// Listed under `optionalCopy` rather than `copy`.
    pub optional: bool,
}

/// Whether `item` describes listing entry `rel` copied from `root` to `worktree`.
pub open spec fn env_copy_of(item: EnvCopy, root: Seq<char>, worktree: Seq<char>, rel: Seq<char>, optional: bool) -> bool {
    &&& item.relative@ == rel
    &&& item.source@ == joined(root, rel)
    &&& item.destination@ == joined(worktree, rel)
    &&& item.optional == optional
}

fn env_copy_item(root: &str, worktree: &str, rel: &String, optional: bool) -> (r: EnvCopy)
    ensures
        env_copy_of(r, root@, worktree@, rel@, optional),
{
    EnvCopy {
        relative: rel.clone(),
        source: join_path(root, rel.as_str()),
        destination: join_path(worktree, rel.as_str()),
        optional,
    }
}

/// The env files `create` brings into the worktree at `worktree_path`: those
/// under `copy`, then those under `optionalCopy`, each in listed order, and
/// nothing else.
pub fn copy_env_files(ctx: &ContextState, worktree_path: &str) -> (r: Vec<EnvCopy>)
    ensures
        r@.len() == ctx.config.env.copy@.len() + ctx.config.env.optional_copy@.len(),
        forall|i: int| 0 <= i < ctx.config.env.copy@.len() ==> env_copy_of(#[trigger] r@[i], ctx.repo_root@,
            worktree_path@, ctx.config.env.copy@[i]@, false),
        forall|i: int| 0 <= i < ctx.config.env.optional_copy@.len() ==> env_copy_of(
            #[trigger] r@[ctx.config.env.copy@.len() + i],
            ctx.repo_root@,
            worktree_path@,
            ctx.config.env.optional_copy@[i]@,
            true,
        ),
{
    let required = &ctx.config.env.copy;
    let optional = &ctx.config.env.optional_copy;
    let mut r: Vec<EnvCopy> = Vec::new();
    let mut i: usize = 0;
    while i < required.len()
        invariant
            i <= required@.len(),
            r@.len() == i,
            forall|j: int| 0 <= j < i ==> env_copy_of(#[trigger] r@[j], ctx.repo_root@, worktree_path@,
                required@[j]@, false),
        decreases required@.len() - i,
    {
        r.push(env_copy_item(ctx.repo_root.as_str(), worktree_path, &required[i], false));
        i = i + 1;
    }
    let n = required.len();
    let mut j: usize = 0;
    while j < optional.len()
        invariant
            n == required@.len(),
            j <= optional@.len(),
            r@.len() == n + j,
            forall|k: int| 0 <= k < n ==> env_copy_of(#[trigger] r@[k], ctx.repo_root@, worktree_path@,
                required@[k]@, false),
            forall|k: int| 0 <= k < j ==> env_copy_of(#[trigger] r@[n + k], ctx.repo_root@, worktree_path@,
                optional@[k]@, true),
        decreases optional@.len() - j,
    {
        r.push(env_copy_item(ctx.repo_root.as_str(), worktree_path, &optional[j], true));
        assert(r@[n + j] == r@[r@.len() - 1]);
        j = j + 1;
    }
    r
}

/// What happens to one env file.
#[derive(Debug, PartialEq, Eq)]
pub enum EnvCopyAction {
    /// An optional file that does not exist: skipped.
    SkipMissing,
    /// The worktree already has the file: left unchanged.
    LeaveExisting,
    /// Copy the file into the worktree.
    Copy,
}

/// What happens to `item`, given whether its source exists in the repo and
/// whether its destination exists in the worktree. An existing destination is
/// never overwritten; a missing required source fails `create`.
pub fn copy_env_file(item: &EnvCopy, source_exists: bool, destination_exists: bool) -> (r: Result<
    EnvCopyAction,
    DevtreeError,
>)
    ensures
        !source_exists && item.optional ==> r == Ok::<EnvCopyAction, DevtreeError>(EnvCopyAction::SkipMissing),
        !source_exists && !item.optional ==> (r matches Err(DevtreeError::RequiredEnvMissing { path })
            && path@ == item.source@),
        source_exists && destination_exists ==> r == Ok::<EnvCopyAction, DevtreeError>(
            EnvCopyAction::LeaveExisting,
        ),
        source_exists && !destination_exists ==> r == Ok::<EnvCopyAction, DevtreeError>(EnvCopyAction::Copy),
{
    if !source_exists {
        if item.optional {
            return Ok(EnvCopyAction::SkipMissing);
        }
        return Err(DevtreeError::RequiredEnvMissing { path: item.source.clone() });
    }
    if destination_exists {
        return Ok(EnvCopyAction::LeaveExisting);
    }
    Ok(EnvCopyAction::Copy)
}

/// Records the worktree that `create` made for `branch` at `worktree_path`,
/// stamped with `now`; a worktree already tracked is kept as it is.
pub fn record_created_worktree(ctx: &mut ContextState, branch: &str, worktree_path: &str, now: Timestamp)
    ensures
        final(ctx).repo_root == old(ctx).repo_root,
        final(ctx).repo_key == old(ctx).repo_key,
        final(ctx).config == old(ctx).config,
        final(ctx).state_path == old(ctx).state_path,
        final(ctx).state@ == with_worktree(old(ctx).state@, old(ctx).repo_key@, old(ctx).repo_root@,
            branch@, worktree_path@, now),
{
    ctx.state.record_worktree_at(ctx.repo_key.as_str(), ctx.repo_root.as_str(), branch, worktree_path, now);
}

/// One setup command of a worktree.
pub struct SetupCommand {
    pub name: String,
    /// The path to look for when the step has `ifFileExists`.
    pub exists_target: Option<String>,
    /// The path to look for when the step has `ifFileMissing`.
    pub missing_target: Option<String>,
    pub command: CommandSpec,
    pub timeout_seconds: Option<u64>,
}

/// `rel` taken inside `worktree`, when given.
pub open spec fn target_in(worktree: Seq<char>, rel: Option<String>) -> Option<Seq<char>> {
    match rel {
        Some(p) => Some(joined(worktree, p@)),
        None => None,
    }
}

/// Whether `c` is setup step `step` of `config` run by `shell` in `worktree`.
pub open spec fn setup_command_of(c: SetupCommand, config: Config, i: int, shell: Seq<char>, worktree: Seq<char>) -> bool {
    let step = config.setup@[i];
    &&& c.name@ == step.name@
    &&& match c.exists_target {
        Some(t) => target_in(worktree, step.if_file_exists) == Some(t@),
        None => step.if_file_exists is None,
    }
    &&& match c.missing_target {
        Some(t) => target_in(worktree, step.if_file_missing) == Some(t@),
        None => step.if_file_missing is None,
    }
    &&& c.command@ == (CommandView {
        program: shell,
        args: seq!["-lc"@, step.run@],
        cwd: Some(joined(worktree, step.cwd@)),
        env: env_pairs(&step.env),
    })
    &&& c.timeout_seconds == step.timeout_seconds
}

fn target(worktree: &str, rel: &Option<String>) -> (r: Option<String>)
    ensures
        match r {
            Some(t) => target_in(worktree@, *rel) == Some(t@),
            None => rel is None,
        },
{
    match rel {
        Some(p) => Some(join_path(worktree, p.as_str())),
        None => None,
    }
}

/// A planned setup command runs its step as configured: by `shell -lc` with
/// the step's `run`, under the step's name, and with exactly the step's
/// timeout, so a step without `timeoutSeconds` runs until it finishes.
pub proof fn law_setup_command_follows_step(c: SetupCommand, config: Config, i: int, shell: Seq<char>, worktree: Seq<char>)
    requires
        setup_command_of(c, config, i, shell, worktree),
    ensures
        c.timeout_seconds == config.setup@[i].timeout_seconds,
        config.setup@[i].timeout_seconds is None ==> c.timeout_seconds is None,
        c.name@ == config.setup@[i].name@,
        c.command@.program == shell,
        c.command@.args == seq!["-lc"@, config.setup@[i].run@],
{
}

/// The setup commands of `setup` for the worktree of `branch`, in config
/// order, each run by `shell` in the step's directory inside the worktree.
/// An empty list means no setup commands are configured.
pub fn run_setup(ctx: &ContextState, branch: &str, shell: &str) -> (r: Result<Vec<SetupCommand>, DevtreeError>)
    ensures
        !has_worktree(ctx.state@, ctx.repo_key@, branch@) ==> (r matches Err(
            DevtreeError::UnknownWorktree { branch: b },
        ) && b@ == branch@),
        has_worktree(ctx.state@, ctx.repo_key@, branch@) ==> (r matches Ok(v) && v@.len() == ctx.config.setup@.len()
            && forall|i: int| 0 <= i < v@.len() ==> setup_command_of(#[trigger] v@[i], ctx.config, i, shell@,
            ctx.state@[ctx.repo_key@].worktrees[branch@].path)),
        r matches Ok(v) ==> forall|i: int| 0 <= i < v@.len() ==> (#[trigger] v@[i]).timeout_seconds
            == ctx.config.setup@[i].timeout_seconds,
{
    let worktree = tracked_worktree_path(ctx, branch)?;
    let steps = &ctx.config.setup;
    let mut v: Vec<SetupCommand> = Vec::new();
    let mut i: usize = 0;
    while i < steps.len()
        invariant
            steps == &ctx.config.setup,
            i <= steps@.len(),
            v@.len() == i,
            forall|j: int| 0 <= j < i ==> setup_command_of(#[trigger] v@[j], ctx.config, j, shell@, worktree@),
        decreases steps@.len() - i,
    {
        let step = &steps[i];
        let mut command = shell_command(shell, step.run.as_str());
        command.cwd = Some(join_path(worktree.as_str(), step.cwd.as_str()));
        command.env = env_entries(&step.env);
        let c = SetupCommand {
            name: step.name.clone(),
            exists_target: target(worktree.as_str(), &step.if_file_exists),
            missing_target: target(worktree.as_str(), &step.if_file_missing),
            command,
            timeout_seconds: step.timeout_seconds,
        };
        assert(c.command@.args =~= seq!["-lc"@, step.run@]);
        v.push(c);
        i = i + 1;
    }
    Ok(v)
}

/// The health check that follows a start.
pub struct HealthCheck {
    pub url: String,
    pub timeout_seconds: u64,
}

/// What `start` does for one app.
pub struct StartPlan {
    pub worktree_path: String,
    pub log_path: String,
    /// The pid and URL of a process already recorded for the app; when it is
    /// still alive nothing is started.
    pub recorded: Option<(u32, String)>,
    pub url: String,
    pub command: String,
    /// The launch: `<shell> -lc "exec <command>"` in the app's directory.
    pub launch: CommandSpec,
    pub health: Option<HealthCheck>,
}

/// Whether `p` is the plan for starting `app` (configured as `a`) on `branch`
/// with `shell`, its worktree at `worktree`, its log below `state_dir`.
pub open spec fn start_plan_of(
    p: StartPlan,
    ctx: ContextState,
    branch: Seq<char>,
    app: Seq<char>,
    a: AppConfig,
    shell: Seq<char>,
    worktree: Seq<char>,
    state_dir: Seq<char>,
) -> bool {
    &&& p.worktree_path@ == worktree
    &&& p.log_path@ == log_file(state_dir, ctx.config.name@, branch, app)
    &&& (if has_app(ctx.state@, ctx.repo_key@, branch, app) {
        p.recorded matches Some(e) && e.0 == ctx.state@[ctx.repo_key@].worktrees[branch].apps[app].pid
            && e.1@ == ctx.state@[ctx.repo_key@].worktrees[branch].apps[app].url
    } else {
        p.recorded is None
    })
    &&& p.url@ == url_of(ctx.config.name@, branch, a.url)
    &&& p.command@ == launch_command_of(ctx.config.name@, a.command@, a.url)
    &&& p.launch@ == (CommandView {
        program: shell,
        args: seq!["-lc"@, "exec "@ + p.command@],
        cwd: Some(joined(worktree, a.cwd@)),
        env: env_pairs(&a.env),
    })
    &&& match a.health_url {
        Some(h) => p.health matches Some(hc) && hc.url@ == health_url_of(p.url@, h@) && hc.timeout_seconds == match a.health_timeout_seconds {
            Some(t) => t,
            None => DEFAULT_HEALTH_TIMEOUT_SECONDS,
        },
        None => p.health is None,
    }
}

/// A start plan waits on a health check exactly when the app has a
/// `healthUrl`; the wait lasts the app's `healthTimeoutSeconds`, 45 seconds
/// when it has none.
pub proof fn law_start_health_only_when_configured(
    p: StartPlan,
    ctx: ContextState,
    branch: Seq<char>,
    app: Seq<char>,
    a: AppConfig,
    shell: Seq<char>,
    worktree: Seq<char>,
    state_dir: Seq<char>,
)
    requires
        start_plan_of(p, ctx, branch, app, a, shell, worktree, state_dir),
    ensures
        p.health is None <==> a.health_url is None,
        p.health matches Some(hc) ==> hc.timeout_seconds == match a.health_timeout_seconds {
            Some(t) => t,
            None => 45u64,
        },
{
}

/// The plan of `start` for `app` on `branch`, launched by `shell`, with the
/// log below `state_dir`. It fails when the worktree is not tracked, then
/// when the app is not configured; otherwise it succeeds.
pub fn start_app_in(ctx: &ContextState, branch: &str, app: &str, shell: &str, state_dir: &str) -> (r: Result<
    StartPlan,
    DevtreeError,
>)
    ensures
        !has_worktree(ctx.state@, ctx.repo_key@, branch@) ==> (r matches Err(
            DevtreeError::UnknownWorktree { branch: b },
        ) && b@ == branch@),
        has_worktree(ctx.state@, ctx.repo_key@, branch@) && !ctx.config.apps@.contains_key(app@) ==> (r matches Err(
            DevtreeError::AppNotConfigured { app: n },
        ) && n@ == app@),
        has_worktree(ctx.state@, ctx.repo_key@, branch@) && ctx.config.apps@.contains_key(app@) ==> (r matches Ok(p)
            && start_plan_of(p, *ctx, branch@, app@, ctx.config.apps@[app@], shell@,
            ctx.state@[ctx.repo_key@].worktrees[branch@].path, state_dir@)),
        r matches Ok(p) ==> (p.health is None <==> ctx.config.apps@[app@].health_url is None),
{
    let worktree = tracked_worktree_path(ctx, branch)?;
    let a = match ctx.config.apps.get(app) {
        Some(a) => a,
        None => {
            return Err(DevtreeError::AppNotConfigured { app: app.to_owned() });
        },
    };
    let log = log_path_in(state_dir, ctx.config.name.as_str(), branch, app);
    let recorded = match ctx.state.app(ctx.repo_key.as_str(), branch, app) {
        Some(existing) => Some((existing.pid, existing.url.clone())),
        None => None,
    };
    let url = app_url(&ctx.config, branch, a);
    let command = command_for_app(&ctx.config, a);
    let mut launch = shell_exec_command(shell, command.as_str());
    launch.cwd = Some(join_path(worktree.as_str(), a.cwd.as_str()));
    launch.env = env_entries(&a.env);
    let health = match &a.health_url {
        Some(h) => {
            let timeout = match a.health_timeout_seconds {
                Some(t) => t,
                None => DEFAULT_HEALTH_TIMEOUT_SECONDS,
            };
            Some(HealthCheck { url: join_url(url.as_str(), h.as_str()), timeout_seconds: timeout })
        },
        None => None,
    };
    let p = StartPlan { worktree_path: worktree, log_path: log, recorded, url, command, launch, health };
    assert(p.launch@.args =~= seq!["-lc"@, "exec "@ + p.command@]);
    Ok(p)
}

/// The plan of `start` for `app` on `branch`, launched by `shell`, with the
/// log below the user's state directory. It fails when the worktree is not
/// tracked, then when the app is not configured, then when the state
/// directory cannot be resolved or its path is not valid Unicode; otherwise
/// it is the plan of [`start_app_in`] for that directory.
pub fn start_app(ctx: &ContextState, branch: &str, app: &str, shell: &str) -> (r: Result<StartPlan, DevtreeError>)
    ensures
        !has_worktree(ctx.state@, ctx.repo_key@, branch@) ==> (r matches Err(
            DevtreeError::UnknownWorktree { branch: b },
        ) && b@ == branch@),
        has_worktree(ctx.state@, ctx.repo_key@, branch@) && !ctx.config.apps@.contains_key(app@) ==> (r matches Err(
            DevtreeError::AppNotConfigured { app: n },
        ) && n@ == app@),
        has_worktree(ctx.state@, ctx.repo_key@, branch@) && ctx.config.apps@.contains_key(app@) ==> match r {
            Ok(p) => exists|d: Seq<char>| start_plan_of(p, *ctx, branch@, app@, ctx.config.apps@[app@], shell@,
                ctx.state@[ctx.repo_key@].worktrees[branch@].path, d),
            Err(e) => state_dir_error(e),
        },
{
    tracked_worktree_path(ctx, branch)?;
    if !ctx.config.apps.contains_key(app) {
        return Err(DevtreeError::AppNotConfigured { app: app.to_owned() });
    }
    let dir = state_dir()?;
    start_app_in(ctx, branch, app, shell, dir.as_str())
}

/// Whether `start` launches a process: not when the app already has a
/// recorded process that is still alive.
pub fn should_launch(plan: &StartPlan, alive: bool) -> (r: bool)
    ensures
        r == !(plan.recorded is Some && alive),
{
    !(plan.recorded.is_some() && alive)
}

/// Records the process `pid` that `start` launched for `app` on `branch`
/// following `plan`, started at `now`, tracking the worktree first (created
/// at `now`) if needed.
pub fn record_started_app(ctx: &mut ContextState, branch: &str, app: &str, plan: &StartPlan, pid: u32, now: Timestamp)
    ensures
        final(ctx).repo_root == old(ctx).repo_root,
        final(ctx).repo_key == old(ctx).repo_key,
        final(ctx).config == old(ctx).config,
        final(ctx).state_path == old(ctx).state_path,
        final(ctx).state@ == with_app(
            old(ctx).state@,
            old(ctx).repo_key@,
            old(ctx).repo_root@,
            branch@,
            plan.worktree_path@,
            now,
            app@,
            AppView { pid, url: plan.url@, log_path: plan.log_path@, started_at: now, command: plan.command@ },
        ),
{
    let state = AppState {
        pid,
        url: plan.url.clone(),
        log_path: plan.log_path.clone(),
        started_at: now,
        command: plan.command.clone(),
    };
    ctx.state.record_app_at(
        ctx.repo_key.as_str(),
        ctx.repo_root.as_str(),
        branch,
        plan.worktree_path.as_str(),
        now,
        app,
        state,
    );
}

/// The process `stop` ends for `app` on `branch`: the recorded pid. The front
/// end kills it when it is alive and then forgets the app.
pub fn stop_app(ctx: &ContextState, branch: &str, app: &str) -> (r: Result<u32, DevtreeError>)
    ensures
        has_app(ctx.state@, ctx.repo_key@, branch@, app@) ==> r == Ok::<u32, DevtreeError>(
            ctx.state@[ctx.repo_key@].worktrees[branch@].apps[app@].pid,
        ),
        !has_app(ctx.state@, ctx.repo_key@, branch@, app@) ==> (r matches Err(
            DevtreeError::UnknownApp { branch: b, app: n },
        ) && b@ == branch@ && n@ == app@),
{
    let a = tracked_app_state(ctx, branch, app)?;
    Ok(a.pid)
}

/// The command `stop` runs for the recorded process `pid`: `kill <pid>` when
/// the process is alive, nothing otherwise.
pub fn stop_command(pid: u32, alive: bool) -> (r: Option<CommandSpec>)
    ensures
        alive ==> (r matches Some(c) && c@ == (CommandView {
            program: "kill"@,
            args: seq![decimal(pid as nat)],
            cwd: None,
            env: seq![],
        })),
        !alive ==> r is None,
{
    if alive {
        Some(kill_command(pid))
    } else {
        None
    }
}

/// What `clean` must look at for `branch`: the tracked worktree path and the
/// tracked apps with their pids, in name order.
pub fn clean_targets(ctx: &ContextState, branch: &str) -> (r: Result<(String, Vec<(String, u32)>), DevtreeError>)
    ensures
        !has_worktree(ctx.state@, ctx.repo_key@, branch@) ==> (r matches Err(
            DevtreeError::UnknownWorktree { branch: b },
        ) && b@ == branch@),
        has_worktree(ctx.state@, ctx.repo_key@, branch@) ==> (r matches Ok(t) && t.0@
            == ctx.state@[ctx.repo_key@].worktrees[branch@].path && tracked_apps_listed(
            t.1@,
            ctx.state@[ctx.repo_key@].worktrees[branch@].apps,
        )),
{
    let path = tracked_worktree_path(ctx, branch)?;
    let w = match ctx.state.worktree(ctx.repo_key.as_str(), branch) {
        Some(w) => w,
        None => {
            return Err(DevtreeError::UnknownWorktree { branch: branch.to_owned() });
        },
    };
    let n = w.apps.len();
    let mut apps: Vec<(String, u32)> = Vec::new();
    let mut i: usize = 0;
    while i < n
        invariant
            n == w.apps.key_list().len(),
            strictly_sorted(w.apps.key_list()),
            forall|k: Seq<char>| w.apps@.contains_key(k) <==> w.apps.key_list().contains(k),
            i <= n,
            apps@.len() == i,
            forall|j: int| 0 <= j < i ==> (#[trigger] apps@[j]).0@ == w.apps.key_list()[j] && apps@[j].1
                == w.apps@[w.apps.key_list()[j]].pid,
        decreases n - i,
    {
        let (k, a) = w.apps.entry_at(i);
        apps.push((k.clone(), a.pid));
        i = i + 1;
    }
    proof {
        let m = w@.apps;
        assert forall|j: int| 0 <= j < apps@.len() implies m.contains_key((#[trigger] apps@[j]).0@) && m[apps@[j].0@].pid
            == apps@[j].1 by {
            assert(w.apps.key_list().contains(w.apps.key_list()[j]));
        }
        assert forall|k: Seq<char>| m.contains_key(k) implies exists|j: int| 0 <= j < apps@.len() && (#[trigger] apps@[j]).0@ == k by {
            assert(w.apps.key_list().contains(k));
            let j = choose|j: int| 0 <= j < w.apps.key_list().len() && w.apps.key_list()[j] == k;
            assert(apps@[j].0@ == k);
        }
        assert forall|j1: int, j2: int| 0 <= j1 < j2 < apps@.len() implies text_lt((#[trigger] apps@[j1]).0@,
            (#[trigger] apps@[j2]).0@) by {
            assert(w.apps.key_list()[j1] == apps@[j1].0@);
        }
    }
    Ok((path, apps))
}

/// Whether `listed` names every app of `apps` once, in name order, each with its pid.
pub open spec fn tracked_apps_listed(listed: Seq<(String, u32)>, apps: Map<Seq<char>, AppView>) -> bool {
    &&& forall|j: int| 0 <= j < listed.len() ==> apps.contains_key((#[trigger] listed[j]).0@) && apps[listed[j].0@].pid
        == listed[j].1
    &&& forall|k: Seq<char>| apps.contains_key(k) ==> exists|j: int| 0 <= j < listed.len() && (#[trigger] listed[j]).0@ == k
    &&& forall|j1: int, j2: int| 0 <= j1 < j2 < listed.len() ==> text_lt((#[trigger] listed[j1]).0@, (#[trigger] listed[j2]).0@)
}

/// The names of the first `n` listed apps whose process is alive, in list order.
pub open spec fn alive_names_upto(listed: Seq<(String, u32)>, alive: Seq<bool>, n: int) -> Seq<Seq<char>>
    decreases n,
{
    if n <= 0 {
        seq![]
    } else if alive[n - 1] {
        alive_names_upto(listed, alive, n - 1).push(listed[n - 1].0@)
    } else {
        alive_names_upto(listed, alive, n - 1)
    }
}

/// The names of the listed apps whose process is alive (`alive[j]` for
/// `listed[j]`), in list order.
pub open spec fn alive_names(listed: Seq<(String, u32)>, alive: Seq<bool>) -> Seq<Seq<char>> {
    alive_names_upto(listed, alive, listed.len() as int)
}

proof fn lemma_alive_names_empty(listed: Seq<(String, u32)>, alive: Seq<bool>, n: int)
    requires
        0 <= n,
    ensures
        alive_names_upto(listed, alive, n).len() == 0 <==> forall|j: int| 0 <= j < n ==> !alive[j],
    decreases n,
{
    if n > 0 {
        lemma_alive_names_empty(listed, alive, n - 1);
    }
}

/// The apps among `listed` (as `clean_targets` gives them) that are still
/// running, `alive[j]` telling whether the process of `listed[j]` is alive:
/// their names, in list order. It is empty exactly when no listed process is alive.
pub fn running_apps(listed: &Vec<(String, u32)>, alive: &Vec<bool>) -> (r: Vec<String>)
    requires
        listed@.len() == alive@.len(),
    ensures
        views(r@) == alive_names(listed@, alive@),
        r@.len() == 0 <==> forall|j: int| 0 <= j < alive@.len() ==> !alive@[j],
{
    let mut r: Vec<String> = Vec::new();
    let mut i: usize = 0;
    while i < listed.len()
        invariant
            i <= listed@.len(),
            listed@.len() == alive@.len(),
            views(r@) == alive_names_upto(listed@, alive@, i as int),
        decreases listed@.len() - i,
    {
        if alive[i] {
            let name = listed[i].0.clone();
            r.push(name);
            assert(views(r@) =~= alive_names_upto(listed@, alive@, i as int).push(listed@[i as int].0@));
        }
        i = i + 1;
    }
    proof {
        lemma_alive_names_empty(listed@, alive@, listed@.len() as int);
        assert(views(r@).len() == r@.len());
    }
    r
}

/// `items` joined with `sep` between consecutive items.
pub open spec fn joined_with(items: Seq<Seq<char>>, sep: Seq<char>) -> Seq<char>
    decreases items.len(),
{
    if items.len() == 0 {
        seq![]
    } else if items.len() == 1 {
        items[0]
    } else {
        joined_with(items.drop_last(), sep) + sep + items.last()
    }
}

/// `items` joined with `sep` between consecutive items (`[String]::join`).
pub fn join_with(items: &Vec<String>, sep: &str) -> (r: String)
    ensures
        r@ == joined_with(views(items@), sep@),
{
    let mut r = String::new();
    let mut i: usize = 0;
    while i < items.len()
        invariant
            i <= items@.len(),
            r@ == joined_with(views(items@).take(i as int), sep@),
        decreases items@.len() - i,
    {
        assert(views(items@).take(i + 1).drop_last() =~= views(items@).take(i as int));
        if i > 0 {
            r.append(sep);
        } else {
            assert(views(items@).take(1) =~= seq![items@[0]@]);
        }
        r.append(items[i].as_str());
        i = i + 1;
    }
    assert(views(items@).take(items@.len() as int) =~= views(items@));
    r
}

/// Whether `clean` may go ahead, given the tracked apps still running (in
/// name order), whether it is forced, and whether the worktree has local
/// changes. Running apps always refuse it; local changes refuse it unless forced.
pub fn clean_worktree(running: &Vec<String>, force: bool, dirty: bool) -> (r: Result<(), DevtreeError>)
    ensures
        running@.len() > 0 ==> (r matches Err(DevtreeError::AppsRunning { names }) && names@ == joined_with(
            views(running@),
            ", "@,
        )),
        running@.len() == 0 && !force && dirty ==> r == Err::<(), DevtreeError>(DevtreeError::WorktreeDirty),
        running@.len() == 0 && (force || !dirty) ==> r == Ok::<(), DevtreeError>(()),
{
    if running.len() > 0 {
        return Err(DevtreeError::AppsRunning { names: join_with(running, ", ") });
    }
    if !force && dirty {
        return Err(DevtreeError::WorktreeDirty);
    }
    Ok(())
}

/// The `git worktree remove` that `clean` runs for the worktree at `path`.
pub fn clean_command(ctx: &ContextState, path: &str, force: bool) -> (r: CommandSpec)
    ensures
        r@ == worktree_remove_view(ctx.repo_root@, path@, force),
{
    git_worktree_remove(ctx.repo_root.as_str(), path, force)
}

/// Whether the worktree at `path` has local changes, from the outcome of
/// `git status --porcelain`: it must succeed, and any output means changes.
pub fn worktree_dirty(path: &str, status_success: bool, output_empty: bool) -> (r: Result<bool, DevtreeError>)
    ensures
        !status_success ==> (r matches Err(DevtreeError::GitStatusFailed { path: p }) && p@ == path@),
        status_success ==> r == Ok::<bool, DevtreeError>(!output_empty),
{
    if !status_success {
        return Err(DevtreeError::GitStatusFailed { path: path.to_owned() });
    }
    Ok(!output_empty)
}

/// The status line of a tracked worktree: `<branch> -> <path>`.
pub fn status_worktree_line(branch: &str, path: &str) -> (r: String)
    ensures
        r@ == branch@ + " -> "@ + path@,
{
    let s = concat(branch, " -> ");
    concat(s.as_str(), path)
}

/// The status line of a tracked app: `  <app>: running|stopped pid=<pid> <url>`.
pub fn status_app_line(app: &str, alive: bool, pid: u32, url: &str) -> (r: String)
    ensures
        r@ == "  "@ + app@ + ": "@ + (if alive { "running"@ } else { "stopped"@ }) + " pid="@ + decimal(pid as nat)
            + " "@ + url@,
{
    let s = concat("  ", app);
    let s = concat(s.as_str(), ": ");
    let s = concat(s.as_str(), if alive { "running" } else { "stopped" });
    let s = concat(s.as_str(), " pid=");
    let s = concat(s.as_str(), decimal_text(pid as u64).as_str());
    let s = concat(s.as_str(), " ");
    concat(s.as_str(), url)
}

/// The line `status` prints when the repository has no state:
/// `No devtree state for <root>`.
pub fn no_state_line(repo_root: &str) -> (r: String)
    ensures
        r@ == "No devtree state for "@ + repo_root@,
{
    concat("No devtree state for ", repo_root)
}

/// The line `start` prints when the app's recorded process is still alive:
/// `Already running: <url> (<pid>)`.
pub fn already_running_line(url: &str, pid: u32) -> (r: String)
    ensures
        r@ == "Already running: "@ + url@ + " ("@ + decimal(pid as nat) + ")"@,
{
    let s = concat("Already running: ", url);
    let s = concat(s.as_str(), " (");
    let s = concat(s.as_str(), decimal_text(pid as u64).as_str());
    concat(s.as_str(), ")")
}

/// What `init` writes.
pub struct InitPlan {
    pub path: String,
    pub contents: String,
}

/// The name of a repository at `root`: its last path component, else `myapp`.
pub open spec fn repo_name_of(root: Seq<char>) -> Seq<char> {
    match file_name(root) {
        Some(n) => n,
        None => "myapp"@,
    }
}

/// The repository name used in the starter config.
pub fn repo_name(repo_root: &str) -> (r: String)
    ensures
        r@ == repo_name_of(repo_root@),
{
    match path_file_name(repo_root) {
        Some(n) => n,
        None => "myapp".to_owned(),
    }
}

/// What `init` writes in the repository at `repo_root`, given whether the
/// config file exists already: it refuses to overwrite one unless forced.
pub fn init_config(repo_root: &str, config_exists: bool, force: bool) -> (r: Result<InitPlan, DevtreeError>)
    ensures
        config_exists && !force ==> (r matches Err(DevtreeError::ConfigExists { path }) && path@ == joined(
            repo_root@,
            config_file_name(),
        )),
        !(config_exists && !force) ==> (r matches Ok(p) && p.path@ == joined(repo_root@, config_file_name())
            && p.contents@ == config_template(repo_name_of(repo_root@))),
{
    let path = config_path(repo_root);
    if config_exists && !force {
        return Err(DevtreeError::ConfigExists { path });
    }
    let name = repo_name(repo_root);
    Ok(InitPlan { path, contents: starter_config(name.as_str()) })
}

} // verus!
