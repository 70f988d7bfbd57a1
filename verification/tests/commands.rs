use devtree::command::{
    git_worktree_add, git_worktree_remove, kill_command, liveness_probe, shell_command,
    shell_exec_command, shell_program, tool_lookup, CommandSpec,
};
use devtree::config::{
    app_url, command_for_app, resolve_app_name, should_skip_step, starter_config, AppConfig,
    Config, EnvConfig, SetupStep, UrlConfig,
};
use devtree::error::DevtreeError;
use devtree::health::{health_step, wait_step, HealthAction, HealthEvent, WaitAction, WaitEvent};
use devtree::host::{choose_state_dir, state_dir_text, Timestamp};
use devtree::state::{AppState, State};
use devtree::table::Table;
use devtree::text::trim_white_space;
use devtree::workflow::{
    clean_command, clean_targets, clean_worktree, copy_env_file, copy_env_files, create_worktree,
    already_running_line, init_config, join_with, no_state_line, record_created_worktree,
    record_started_app, repo_name, run_setup, running_apps, should_launch, start_app, start_app_in,
    stop_command,
    status_app_line, status_worktree_line, stop_app, tracked_app_state,
    tracked_worktree_path, worktree_dirty, worktree_path, ContextState, EnvCopy, EnvCopyAction,
};

fn table(pairs: &[(&str, &str)]) -> Table<String> {
    let mut t = Table::new();
    for (k, v) in pairs {
        t.insert(k.to_string(), v.to_string());
    }
    t
}

fn app(command: &str, url: UrlConfig) -> AppConfig {
    AppConfig {
        command: command.to_string(),
        cwd: ".".to_string(),
        env: Table::new(),
        url,
        health_url: None,
        health_timeout_seconds: None,
    }
}

fn config(apps: Vec<(&str, AppConfig)>) -> Config {
    let mut t = Table::new();
    for (k, a) in apps {
        t.insert(k.to_string(), a);
    }
    Config {
        name: "myapp".to_string(),
        worktrees_root: "../myapp-worktrees".to_string(),
        env: EnvConfig { copy: vec![], optional_copy: vec![] },
        setup: vec![],
        apps: t,
    }
}

fn context(config: Config) -> ContextState {
    ContextState {
        repo_root: "/src/myapp".to_string(),
        repo_key: "/src/myapp/.git".to_string(),
        config,
        state_path: "/state/state.json".to_string(),
        state: State::new(),
    }
}

fn at(secs: i64) -> Timestamp {
    Timestamp { secs, nanos: 0 }
}

fn args(c: &CommandSpec) -> Vec<&str> {
    c.args.iter().map(|s| s.as_str()).collect()
}

#[test]
fn portless_url_uses_branch_and_project_name() {
    let cfg = config(vec![]);
    let web = app("pnpm dev", UrlConfig::default());
    assert_eq!(app_url(&cfg, "fix-navbar", &web), "https://fix-navbar.myapp.localhost");
    assert_eq!(app_url(&cfg, "Fix/Navbar", &web), "https://fix-navbar.myapp.localhost");
    let named = app("pnpm dev", UrlConfig::Portless { name: Some("palabruno".to_string()) });
    assert_eq!(app_url(&cfg, "issue-123", &named), "https://issue-123.palabruno.localhost");
}

#[test]
fn raw_port_and_none_urls() {
    let cfg = config(vec![]);
    let raw = app("pnpm dev", UrlConfig::RawPort { url: "http://127.0.0.1:3000".to_string() });
    assert_eq!(app_url(&cfg, "b", &raw), "http://127.0.0.1:3000");
    let none = app("pnpm dev", UrlConfig::NoUrl);
    assert_eq!(app_url(&cfg, "b", &none), "none");
}

#[test]
fn portless_wraps_the_command() {
    let cfg = config(vec![]);
    let named = app("pnpm dev", UrlConfig::Portless { name: Some("palabruno".to_string()) });
    assert_eq!(command_for_app(&cfg, &named), "portless palabruno pnpm dev");
    let default = app("pnpm dev", UrlConfig::default());
    assert_eq!(command_for_app(&cfg, &default), "portless myapp pnpm dev");
    let raw = app("npm start", UrlConfig::RawPort { url: "http://x".to_string() });
    assert_eq!(command_for_app(&cfg, &raw), "npm start");
    assert_eq!(command_for_app(&cfg, &app("npm start", UrlConfig::NoUrl)), "npm start");
}

#[test]
fn app_resolution_order() {
    let cfg = config(vec![("web", app("a", UrlConfig::NoUrl)), ("api", app("b", UrlConfig::NoUrl))]);
    assert_eq!(resolve_app_name(&cfg, Some("other")), Ok("other".to_string()));
    assert_eq!(resolve_app_name(&cfg, None), Ok("api".to_string()));
    let with_default = config(vec![
        ("web", app("a", UrlConfig::NoUrl)),
        ("default", app("b", UrlConfig::NoUrl)),
        ("api", app("c", UrlConfig::NoUrl)),
    ]);
    assert_eq!(resolve_app_name(&with_default, None), Ok("default".to_string()));
    assert_eq!(resolve_app_name(&config(vec![]), None), Err(DevtreeError::NoAppsConfigured));
}

#[test]
fn table_keeps_key_order() {
    let mut t = table(&[("web", "1"), ("api", "2"), ("db", "3")]);
    let keys: Vec<&str> = (0..t.len()).map(|i| t.entry_at(i).0.as_str()).collect();
    assert_eq!(keys, vec!["api", "db", "web"]);
    t.insert("api".to_string(), "9".to_string());
    assert_eq!(t.get("api"), Some(&"9".to_string()));
    assert_eq!(t.len(), 3);
    assert_eq!(t.remove("db"), Some("3".to_string()));
    assert_eq!(t.remove("db"), None);
    assert!(!t.contains_key("db"));
    assert_eq!(t.first_key(), Some(&"api".to_string()));
}

fn step(exists: Option<&str>, missing: Option<&str>) -> SetupStep {
    SetupStep {
        name: "s".to_string(),
        run: "true".to_string(),
        cwd: ".".to_string(),
        env: Table::new(),
        if_file_exists: exists.map(|s| s.to_string()),
        if_file_missing: missing.map(|s| s.to_string()),
        timeout_seconds: None,
    }
}

#[test]
fn setup_step_skipping() {
    assert!(!should_skip_step(&step(None, None), false, true));
    assert!(should_skip_step(&step(Some("prisma/schema.prisma"), None), false, false));
    assert!(!should_skip_step(&step(Some("prisma/schema.prisma"), None), true, false));
    assert!(should_skip_step(&step(None, Some("node_modules")), false, true));
    assert!(!should_skip_step(&step(None, Some("node_modules")), false, false));
}

#[test]
fn starter_config_text() {
    let name = "myrepo";
    let expected = format!(
        r#"name: {name}
worktreesRoot: ../{name}-worktrees

env:
  copy: []
  optionalCopy:
    - .env.local

setup:
  - name: install dependencies
    run: pnpm install --frozen-lockfile

apps:
  web:
    cwd: .
    command: pnpm dev
    url:
      provider: portless
      name: {name}
    healthUrl: /
"#
    );
    assert_eq!(starter_config(name), expected);
}

#[test]
fn init_refuses_to_overwrite() {
    assert_eq!(
        init_config("/src/myrepo", true, false).err(),
        Some(DevtreeError::ConfigExists { path: "/src/myrepo/.devtree.yml".to_string() })
    );
    let plan = init_config("/src/myrepo", true, true).unwrap();
    assert_eq!(plan.path, "/src/myrepo/.devtree.yml");
    assert_eq!(plan.contents, starter_config("myrepo"));
    assert_eq!(init_config("/", false, false).unwrap().contents, starter_config("myapp"));
    assert_eq!(repo_name("/src/myrepo/"), "myrepo");
}

#[test]
fn create_plan_and_record() {
    let mut ctx = context(config(vec![]));
    assert_eq!(worktree_path(&ctx, "Fix/Navbar"), "/src/myapp/../myapp-worktrees/fix-navbar");
    let plan = create_worktree(&ctx, "fix-navbar", Some("main"), false);
    let git = plan.git_add.as_ref().unwrap();
    assert_eq!(git.program, "git");
    assert_eq!(args(git), vec!["worktree", "add", "-b", "fix-navbar", plan.worktree_path.as_str(), "main"]);
    assert_eq!(git.cwd.as_deref(), Some("/src/myapp"));
    assert!(create_worktree(&ctx, "fix-navbar", None, true).git_add.is_none());
    assert_eq!(
        tracked_worktree_path(&ctx, "fix-navbar"),
        Err(DevtreeError::UnknownWorktree { branch: "fix-navbar".to_string() })
    );
    record_created_worktree(&mut ctx, "fix-navbar", &plan.worktree_path, at(100));
    assert_eq!(tracked_worktree_path(&ctx, "fix-navbar"), Ok(plan.worktree_path.clone()));
    let created = ctx.state.worktree(&ctx.repo_key, "fix-navbar").unwrap().created_at;
    assert_eq!(created, at(100));
    record_created_worktree(&mut ctx, "fix-navbar", "/elsewhere", at(300));
    let w = ctx.state.worktree(&ctx.repo_key, "fix-navbar").unwrap();
    assert_eq!(w.path, plan.worktree_path);
    assert_eq!(w.created_at, created);
}

#[test]
fn env_copy_plan_lists_configured_files_in_order() {
    let mut cfg = config(vec![]);
    cfg.env = EnvConfig {
        copy: vec!["apps/web/.env.local".to_string()],
        optional_copy: vec![".env.local".to_string(), "/abs/.env".to_string()],
    };
    let ctx = context(cfg);
    let items = copy_env_files(&ctx, "/trees/b");
    let got: Vec<(&str, &str, &str, bool)> = items
        .iter()
        .map(|i| (i.relative.as_str(), i.source.as_str(), i.destination.as_str(), i.optional))
        .collect();
    assert_eq!(
        got,
        vec![
            ("apps/web/.env.local", "/src/myapp/apps/web/.env.local", "/trees/b/apps/web/.env.local", false),
            (".env.local", "/src/myapp/.env.local", "/trees/b/.env.local", true),
            ("/abs/.env", "/abs/.env", "/abs/.env", true),
        ]
    );
}

#[test]
fn env_copy_decisions() {
    let item = |optional| EnvCopy {
        relative: ".env.local".to_string(),
        source: "/src/.env.local".to_string(),
        destination: "/t/.env.local".to_string(),
        optional,
    };
    assert_eq!(copy_env_file(&item(true), false, false), Ok(EnvCopyAction::SkipMissing));
    assert_eq!(
        copy_env_file(&item(false), false, false),
        Err(DevtreeError::RequiredEnvMissing { path: "/src/.env.local".to_string() })
    );
    assert_eq!(copy_env_file(&item(false), true, true), Ok(EnvCopyAction::LeaveExisting));
    assert_eq!(copy_env_file(&item(true), true, true), Ok(EnvCopyAction::LeaveExisting));
    assert_eq!(copy_env_file(&item(false), true, false), Ok(EnvCopyAction::Copy));
}

#[test]
fn setup_plan_runs_steps_in_worktree() {
    let mut cfg = config(vec![]);
    cfg.setup = vec![
        SetupStep {
            name: "install dependencies".to_string(),
            run: "pnpm install --frozen-lockfile".to_string(),
            cwd: ".".to_string(),
            env: table(&[("CI", "1")]),
            if_file_exists: None,
            if_file_missing: Some("node_modules".to_string()),
            timeout_seconds: Some(900),
        },
        SetupStep {
            name: "generate prisma client".to_string(),
            run: "pnpm prisma generate".to_string(),
            cwd: "apps/web".to_string(),
            env: Table::new(),
            if_file_exists: Some("prisma/schema.prisma".to_string()),
            if_file_missing: None,
            timeout_seconds: None,
        },
    ];
    let mut ctx = context(cfg);
    assert!(matches!(run_setup(&ctx, "b", "/bin/zsh"), Err(DevtreeError::UnknownWorktree { .. })));
    record_created_worktree(&mut ctx, "b", "/trees/b", at(100));
    let steps = run_setup(&ctx, "b", "/bin/zsh").unwrap();
    assert_eq!(steps.len(), 2);
    assert_eq!(steps[0].command.program, "/bin/zsh");
    assert_eq!(args(&steps[0].command), vec!["-lc", "pnpm install --frozen-lockfile"]);
    assert_eq!(steps[0].command.cwd.as_deref(), Some("/trees/b/."));
    assert_eq!(steps[0].command.env, vec![("CI".to_string(), "1".to_string())]);
    assert_eq!(steps[0].missing_target.as_deref(), Some("/trees/b/node_modules"));
    assert_eq!(steps[0].exists_target, None);
    assert_eq!(steps[0].timeout_seconds, Some(900));
    assert_eq!(steps[1].command.cwd.as_deref(), Some("/trees/b/apps/web"));
    assert_eq!(steps[1].exists_target.as_deref(), Some("/trees/b/prisma/schema.prisma"));
}

#[test]
fn start_plan_and_stop() {
    let mut web = app("pnpm dev", UrlConfig::Portless { name: Some("palabruno".to_string()) });
    web.cwd = "apps/web".to_string();
    web.health_url = Some("/api/health".to_string());
    web.env = table(&[("PORT", "3000")]);
    let mut ctx = context(config(vec![("web", web)]));
    assert!(matches!(start_app(&ctx, "issue-123", "web", "/bin/sh"), Err(DevtreeError::UnknownWorktree { .. })));
    record_created_worktree(&mut ctx, "issue-123", "/trees/issue-123", at(100));
    assert_eq!(
        start_app(&ctx, "issue-123", "api", "/bin/sh").err(),
        Some(DevtreeError::AppNotConfigured { app: "api".to_string() })
    );
    let plan = match start_app(&ctx, "issue-123", "web", "/bin/sh") {
        Ok(p) => p,
        Err(e) => {
            assert!(matches!(e, DevtreeError::NoStateDir | DevtreeError::StateDirNotUnicode), "{e:?}");
            return;
        }
    };
    assert_eq!(plan.url, "https://issue-123.palabruno.localhost");
    assert_eq!(plan.command, "portless palabruno pnpm dev");
    assert_eq!(args(&plan.launch), vec!["-lc", "exec portless palabruno pnpm dev"]);
    assert_eq!(plan.launch.cwd.as_deref(), Some("/trees/issue-123/apps/web"));
    assert_eq!(plan.launch.env, vec![("PORT".to_string(), "3000".to_string())]);
    assert!(plan.log_path.ends_with("/logs/myapp/issue-123/web.log"));
    assert!(plan.recorded.is_none());
    let health = plan.health.as_ref().unwrap();
    assert_eq!(health.url, "https://issue-123.palabruno.localhost/api/health");
    assert_eq!(health.timeout_seconds, 45);

    record_started_app(&mut ctx, "issue-123", "web", &plan, 4242, at(200));
    let st = tracked_app_state(&ctx, "issue-123", "web").unwrap();
    assert_eq!((st.pid, st.url.as_str(), st.command.as_str()), (4242, plan.url.as_str(), plan.command.as_str()));
    assert_eq!(st.started_at, at(200));
    let again = start_app(&ctx, "issue-123", "web", "/bin/sh").unwrap();
    assert_eq!(again.recorded, Some((4242, plan.url.clone())));

    assert_eq!(stop_app(&ctx, "issue-123", "web"), Ok(4242));
    let key = ctx.repo_key.clone();
    ctx.state.forget_app(&key, "issue-123", "web");
    assert_eq!(
        stop_app(&ctx, "issue-123", "web"),
        Err(DevtreeError::UnknownApp { branch: "issue-123".to_string(), app: "web".to_string() })
    );
    assert!(tracked_worktree_path(&ctx, "issue-123").is_ok());
}

#[test]
fn clean_checks_and_command() {
    let mut ctx = context(config(vec![]));
    assert!(clean_targets(&ctx, "b").is_err());
    let key = ctx.repo_key.clone();
    let root = ctx.repo_root.clone();
    let t = Timestamp { secs: 1, nanos: 0 };
    for (name, pid) in [("web", 10u32), ("api", 20u32)] {
        let st = AppState {
            pid,
            url: "none".to_string(),
            log_path: "/l".to_string(),
            started_at: t,
            command: "c".to_string(),
        };
        ctx.state.record_app_at(&key, &root, "b", "/trees/b", t, name, st);
    }
    let (path, apps) = clean_targets(&ctx, "b").unwrap();
    assert_eq!(path, "/trees/b");
    assert_eq!(apps, vec![("api".to_string(), 20), ("web".to_string(), 10)]);
    let running = vec!["api".to_string(), "web".to_string()];
    assert_eq!(
        clean_worktree(&running, true, false),
        Err(DevtreeError::AppsRunning { names: "api, web".to_string() })
    );
    assert_eq!(clean_worktree(&vec![], false, true), Err(DevtreeError::WorktreeDirty));
    assert_eq!(clean_worktree(&vec![], true, true), Ok(()));
    assert_eq!(clean_worktree(&vec![], false, false), Ok(()));
    let cmd = clean_command(&ctx, &path, true);
    assert_eq!(args(&cmd), vec!["worktree", "remove", "/trees/b", "--force"]);
    assert_eq!(args(&git_worktree_remove("/r", "/p", false)), vec!["worktree", "remove", "/p"]);
    ctx.state.forget_worktree(&key, "b");
    assert!(tracked_worktree_path(&ctx, "b").is_err());
}

#[test]
fn dirty_detection() {
    assert_eq!(worktree_dirty("/t", true, true), Ok(false));
    assert_eq!(worktree_dirty("/t", true, false), Ok(true));
    assert_eq!(
        worktree_dirty("/t", false, true),
        Err(DevtreeError::GitStatusFailed { path: "/t".to_string() })
    );
}

#[test]
fn join_with_separator() {
    assert_eq!(join_with(&vec![], ", "), "");
    assert_eq!(join_with(&vec!["a".to_string()], ", "), "a");
    assert_eq!(join_with(&vec!["a".to_string(), "b".to_string(), "c".to_string()], ", "), "a, b, c");
}

#[test]
fn status_lines() {
    assert_eq!(status_worktree_line("fix-navbar", "/t/fix-navbar"), "fix-navbar -> /t/fix-navbar");
    assert_eq!(status_app_line("web", true, 42, "https://x"), "  web: running pid=42 https://x");
    assert_eq!(status_app_line("web", false, 7, "none"), "  web: stopped pid=7 none");
}

#[test]
fn shell_commands() {
    assert_eq!(shell_program(None), "/bin/sh");
    assert_eq!(shell_program(Some("/bin/zsh".to_string())), "/bin/zsh");
    let c = shell_command("/bin/sh", "pnpm dev");
    assert_eq!(args(&c), vec!["-lc", "pnpm dev"]);
    let e = shell_exec_command("/bin/sh", "pnpm dev");
    assert_eq!(args(&e), vec!["-lc", "exec pnpm dev"]);
    assert_eq!(args(&kill_command(123)), vec!["123"]);
    assert_eq!(args(&liveness_probe(9)), vec!["-0", "9"]);
    let t = tool_lookup("portless");
    assert_eq!(t.program, "sh");
    assert_eq!(args(&t), vec!["-lc", "command -v portless"]);
    assert_eq!(args(&git_worktree_add("/r", "b", "/p", None)), vec!["worktree", "add", "-b", "b", "/p"]);
}

#[test]
fn polling_decisions() {
    assert_eq!(health_step(45, HealthEvent::Tick { elapsed_nanos: 0 }), HealthAction::Probe);
    assert_eq!(
        health_step(45, HealthEvent::Tick { elapsed_nanos: 44_999_999_999 }),
        HealthAction::Probe
    );
    assert_eq!(
        health_step(45, HealthEvent::Tick { elapsed_nanos: 45_000_000_000 }),
        HealthAction::TimedOut
    );
    assert_eq!(health_step(45, HealthEvent::Answered { success: true }), HealthAction::Healthy);
    assert_eq!(
        health_step(45, HealthEvent::Answered { success: false }),
        HealthAction::Retry { wait_millis: 750 }
    );
    assert_eq!(wait_step(1, WaitEvent::Tick { elapsed_nanos: 5 }), WaitAction::Check);
    assert_eq!(wait_step(0, WaitEvent::Tick { elapsed_nanos: 0 }), WaitAction::Kill);
    assert_eq!(wait_step(1, WaitEvent::Checked { exit_success: Some(true) }), WaitAction::Succeeded);
    assert_eq!(wait_step(1, WaitEvent::Checked { exit_success: Some(false) }), WaitAction::Failed);
    assert_eq!(
        wait_step(1, WaitEvent::Checked { exit_success: None }),
        WaitAction::Sleep { millis: 200 }
    );
}

#[test]
fn error_messages() {
    let m = |e: DevtreeError| e.message();
    assert_eq!(
        m(DevtreeError::UnknownWorktree { branch: "b".to_string() }),
        "unknown worktree `b`. Run `devtree create b` first."
    );
    assert_eq!(
        m(DevtreeError::UnknownApp { branch: "b".to_string(), app: "web".to_string() }),
        "unknown app `b/web`"
    );
    assert_eq!(m(DevtreeError::AppNotConfigured { app: "web".to_string() }), "app `web` is not configured");
    assert_eq!(m(DevtreeError::NoAppsConfigured), "no apps configured");
    assert_eq!(m(DevtreeError::NoStateDir), "could not resolve user state directory");
    assert_eq!(m(DevtreeError::StateDirNotUnicode), "user state directory path is not valid Unicode");
    assert_eq!(
        m(DevtreeError::ConfigExists { path: "/r/.devtree.yml".to_string() }),
        "/r/.devtree.yml already exists. Use --force to overwrite it."
    );
    assert_eq!(
        m(DevtreeError::RequiredEnvMissing { path: "/r/.env".to_string() }),
        "required env file does not exist: /r/.env"
    );
    assert_eq!(
        m(DevtreeError::AppsRunning { names: "api, web".to_string() }),
        "stop running apps before clean: api, web"
    );
    assert_eq!(
        m(DevtreeError::WorktreeDirty),
        "worktree has local changes. Use --force to remove it anyway."
    );
    assert_eq!(m(DevtreeError::GitStatusFailed { path: "/t".to_string() }), "git status failed in /t");
    assert_eq!(
        m(DevtreeError::HealthTimeout { seconds: 45, url: "https://x/h".to_string() }),
        "health check did not pass within 45s: https://x/h"
    );
    assert_eq!(m(DevtreeError::CommandTimedOut { seconds: 900 }), "command timed out after 900s");
}

#[test]
fn created_worktree_is_stamped_with_the_given_time() {
    let mut ctx = context(config(vec![]));
    let now = Timestamp { secs: 1_700_000_000, nanos: 123 };
    record_created_worktree(&mut ctx, "b", "/trees/b", now);
    let w = ctx.state.worktree(&ctx.repo_key, "b").unwrap();
    assert_eq!(w.created_at, now);
    assert_eq!(w.path, "/trees/b");
}

#[test]
fn state_dir_is_devtree_directory() {
    match devtree::host::state_dir() {
        Ok(d) => assert!(d.ends_with("devtree"), "{d}"),
        Err(e) => assert!(matches!(e, DevtreeError::NoStateDir | DevtreeError::StateDirNotUnicode), "{e:?}"),
    }
}

#[test]
fn other_repositories_are_untouched() {
    let mut ctx = context(config(vec![]));
    let t = Timestamp { secs: 5, nanos: 6 };
    ctx.state.record_worktree_at("/other/.git", "/other", "main", "/trees/main", t);
    record_created_worktree(&mut ctx, "b", "/trees/b", at(100));
    let key = ctx.repo_key.clone();
    ctx.state.forget_worktree(&key, "b");
    ctx.state.forget_app(&key, "main", "web");
    let w = ctx.state.worktree("/other/.git", "main").unwrap();
    assert_eq!((w.path.as_str(), w.created_at), ("/trees/main", t));
    assert!(ctx.state.worktree(&key, "b").is_none());
}

#[test]
fn start_plan_below_given_state_dir() {
    let mut web = app("pnpm dev", UrlConfig::default());
    web.health_url = Some("/health".to_string());
    web.health_timeout_seconds = Some(10);
    let mut ctx = context(config(vec![("web", web)]));
    assert_eq!(
        start_app_in(&ctx, "issue-123", "web", "/bin/sh", "/state").err(),
        Some(DevtreeError::UnknownWorktree { branch: "issue-123".to_string() })
    );
    record_created_worktree(&mut ctx, "issue-123", "/trees/issue-123", at(100));
    assert_eq!(
        start_app_in(&ctx, "issue-123", "api", "/bin/sh", "/state").err(),
        Some(DevtreeError::AppNotConfigured { app: "api".to_string() })
    );
    let plan = start_app_in(&ctx, "issue-123", "web", "/bin/sh", "/state").unwrap();
    assert_eq!(plan.log_path, "/state/logs/myapp/issue-123/web.log");
    assert_eq!(plan.worktree_path, "/trees/issue-123");
    assert_eq!(plan.url, "https://issue-123.myapp.localhost");
    assert_eq!(plan.command, "portless myapp pnpm dev");
    assert_eq!(plan.launch.program, "/bin/sh");
    assert_eq!(args(&plan.launch), vec!["-lc", "exec portless myapp pnpm dev"]);
    assert_eq!(plan.launch.cwd.as_deref(), Some("/trees/issue-123/."));
    assert!(plan.recorded.is_none());
    let health = plan.health.as_ref().unwrap();
    assert_eq!(health.url, "https://issue-123.myapp.localhost/health");
    assert_eq!(health.timeout_seconds, 10);
    assert!(should_launch(&plan, true));
    assert!(should_launch(&plan, false));

    record_started_app(&mut ctx, "issue-123", "web", &plan, 77, at(200));
    let again = start_app_in(&ctx, "issue-123", "web", "/bin/sh", "/state").unwrap();
    assert_eq!(again.recorded, Some((77, "https://issue-123.myapp.localhost".to_string())));
    assert!(!should_launch(&again, true));
    assert!(should_launch(&again, false));
}

#[test]
fn start_and_status_messages() {
    assert_eq!(
        already_running_line("https://issue-123.myapp.localhost", 4242),
        "Already running: https://issue-123.myapp.localhost (4242)"
    );
    assert_eq!(already_running_line("none", 0), "Already running: none (0)");
    assert_eq!(no_state_line("/src/myapp"), "No devtree state for /src/myapp");
}

#[test]
fn white_space_trim_matches_std() {
    let samples = [
        "", " ", "abc", "  abc  ", "\tpath/to/repo\n", "\r\n/repo\r\n", "a b", "\u{85}x\u{85}",
        "\u{A0}x\u{A0}", "\u{3000}x\u{2029}", "\u{200B}x\u{200B}", "\u{FEFF}x", "\u{1680}\u{2000}x\u{205F}",
        " \u{180E}x",
    ];
    for s in samples {
        assert_eq!(trim_white_space(s), s.trim(), "{s:?}");
    }
    for code in 0u32..0x3100 {
        if let Some(c) = char::from_u32(code) {
            let s = format!("{c}a{c}");
            assert_eq!(trim_white_space(&s), s.trim(), "{code:#x}");
        }
    }
    assert_eq!(trim_white_space("/src/myapp\n"), "/src/myapp");
}

#[test]
fn stop_kills_only_live_processes() {
    let c = stop_command(4242, true).unwrap();
    assert_eq!(c.program, "kill");
    assert_eq!(args(&c), vec!["4242"]);
    assert!(c.cwd.is_none() && c.env.is_empty());
    assert!(stop_command(4242, false).is_none());
}

#[test]
fn clean_sees_only_live_apps() {
    let listed = vec![("api".to_string(), 20u32), ("web".to_string(), 10u32), ("worker".to_string(), 30u32)];
    assert_eq!(running_apps(&listed, &vec![true, false, true]), vec!["api".to_string(), "worker".to_string()]);
    assert!(running_apps(&listed, &vec![false, false, false]).is_empty());
    assert!(running_apps(&vec![], &vec![]).is_empty());
    let running = running_apps(&listed, &vec![false, true, true]);
    assert_eq!(
        clean_worktree(&running, true, false),
        Err(DevtreeError::AppsRunning { names: "web, worker".to_string() })
    );
    let none = running_apps(&listed, &vec![false, false, false]);
    assert_eq!(clean_worktree(&none, false, true), Err(DevtreeError::WorktreeDirty));
    assert_eq!(clean_worktree(&none, true, true), Ok(()));
}

#[test]
fn state_dir_choice_and_text() {
    assert_eq!(choose_state_dir(Some("/s".to_string()), "/d".to_string()), "/s");
    assert_eq!(choose_state_dir(None, "/d".to_string()), "/d");
    assert_eq!(state_dir_text(Some("/home/u/.local/state/devtree".to_string())), Ok("/home/u/.local/state/devtree".to_string()));
    assert_eq!(state_dir_text(None), Err(DevtreeError::StateDirNotUnicode));
}
