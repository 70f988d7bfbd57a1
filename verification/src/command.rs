//! External commands devtree runs, described as data: program, arguments,
//! working directory and extra environment. The front end runs them.

use vstd::prelude::*;
use crate::table::Table;
use crate::text::{concat, decimal, decimal_text};

verus! {

/// A command to run.
pub struct CommandSpec {
    pub program: String,
    pub args: Vec<String>,
    pub cwd: Option<String>,
    pub env: Vec<(String, String)>,
}

/// Model of a [`CommandSpec`].
pub struct CommandView {
    pub program: Seq<char>,
    pub args: Seq<Seq<char>>,
    pub cwd: Option<Seq<char>>,
    pub env: Seq<(Seq<char>, Seq<char>)>,
}

/// The views of a list of strings.
pub open spec fn views(v: Seq<String>) -> Seq<Seq<char>> {
    v.map_values(|s: String| s@)
}

/// The views of a list of string pairs.
pub open spec fn pair_views(v: Seq<(String, String)>) -> Seq<(Seq<char>, Seq<char>)> {
    v.map_values(|p: (String, String)| (p.0@, p.1@))
}

/// The view of an optional string.
pub open spec fn opt_view(o: Option<String>) -> Option<Seq<char>> {
    match o {
        Some(s) => Some(s@),
        None => None,
    }
}

impl View for CommandSpec {
    type V = CommandView;

    open spec fn view(&self) -> CommandView {
        CommandView {
            program: self.program@,
            args: views(self.args@),
            cwd: opt_view(self.cwd),
            env: pair_views(self.env@),
        }
    }
}

/// The entries of `t` in key order.
pub open spec fn env_pairs(t: &Table<String>) -> Seq<(Seq<char>, Seq<char>)> {
    t.key_list().map_values(|k: Seq<char>| (k, t@[k]@))
}

/// The entries of an environment table, in key order.
pub fn env_entries(t: &Table<String>) -> (r: Vec<(String, String)>)
    ensures
        pair_views(r@) == env_pairs(t),
{
    let n = t.len();
    let mut r: Vec<(String, String)> = Vec::new();
    let mut i: usize = 0;
    while i < n
        invariant
            n == t.key_list().len(),
            i <= n,
            r@.len() == i,
            pair_views(r@) == env_pairs(t).take(i as int),
        decreases n - i,
    {
        let (k, v) = t.entry_at(i);
        let kc = k.clone();
        let vc = v.clone();
        r.push((kc, vc));
        assert(r@[i as int] == (kc, vc));
        assert(env_pairs(t)[i as int] == (t.key_list()[i as int], t@[t.key_list()[i as int]]@));
        assert(pair_views(r@)[i as int] == (kc@, vc@));
        assert(pair_views(r@)[i as int] == env_pairs(t)[i as int]);
        assert(pair_views(r@) =~= env_pairs(t).take(i + 1));
        i = i + 1;
    }
    assert(env_pairs(t).take(n as int) =~= env_pairs(t));
    r
}

fn strings2(a: &str, b: &str) -> (r: Vec<String>)
    ensures
        views(r@) == seq![a@, b@],
{
    let mut r: Vec<String> = Vec::new();
    r.push(a.to_owned());
    r.push(b.to_owned());
    assert(views(r@) =~= seq![a@, b@]);
    r
}

/// The shell that runs commands: `$SHELL` when it is set, else `/bin/sh`.
pub fn shell_program(shell_var: Option<String>) -> (r: String)
    ensures
        r@ == (match shell_var {
            Some(s) => s@,
            None => "/bin/sh"@,
        }),
{
    match shell_var {
        Some(s) => s,
        None => "/bin/sh".to_owned(),
    }
}

/// `command` run by `shell` as a login shell: `<shell> -lc <command>`.
pub fn shell_command(shell: &str, command: &str) -> (r: CommandSpec)
    ensures
        r@ == (CommandView { program: shell@, args: seq!["-lc"@, command@], cwd: None, env: seq![] }),
{
    let r = CommandSpec { program: shell.to_owned(), args: strings2("-lc", command), cwd: None, env: Vec::new() };
    assert(r@.env =~= Seq::<(Seq<char>, Seq<char>)>::empty());
    r
}

/// `command` run by `shell` in place of the shell process: `<shell> -lc "exec <command>"`.
pub fn shell_exec_command(shell: &str, command: &str) -> (r: CommandSpec)
    ensures
        r@ == (CommandView { program: shell@, args: seq!["-lc"@, "exec "@ + command@], cwd: None, env: seq![] }),
{
    let line = concat("exec ", command);
    shell_command(shell, line.as_str())
}

/// `git worktree add -b <branch> <path> [<from>]`, run in `repo_root`.
pub open spec fn worktree_add_view(repo_root: Seq<char>, branch: Seq<char>, path: Seq<char>, from: Option<Seq<char>>) -> CommandView {
    CommandView {
        program: "git"@,
        args: match from {
            Some(f) => seq!["worktree"@, "add"@, "-b"@, branch, path, f],
            None => seq!["worktree"@, "add"@, "-b"@, branch, path],
        },
        cwd: Some(repo_root),
        env: seq![],
    }
}

/// `git worktree remove <path> [--force]`, run in `repo_root`.
pub open spec fn worktree_remove_view(repo_root: Seq<char>, path: Seq<char>, force: bool) -> CommandView {
    CommandView {
        program: "git"@,
        args: if force {
            seq!["worktree"@, "remove"@, path, "--force"@]
        } else {
            seq!["worktree"@, "remove"@, path]
        },
        cwd: Some(repo_root),
        env: seq![],
    }
}

/// `git worktree add -b <branch> <path> [<from>]`, run in the repo root.
pub fn git_worktree_add(repo_root: &str, branch: &str, path: &str, from: Option<&str>) -> (r: CommandSpec)
    ensures
        r@ == worktree_add_view(repo_root@, branch@, path@, match from {
            Some(f) => Some(f@),
            None => None,
        }),
{
    let mut args: Vec<String> = Vec::new();
    args.push("worktree".to_owned());
    args.push("add".to_owned());
    args.push("-b".to_owned());
    args.push(branch.to_owned());
    args.push(path.to_owned());
    if let Some(f) = from {
        args.push(f.to_owned());
    }
    let r = CommandSpec { program: "git".to_owned(), args, cwd: Some(repo_root.to_owned()), env: Vec::new() };
    assert(r@.env =~= Seq::<(Seq<char>, Seq<char>)>::empty());
    assert(r@.args =~= (match from {
        Some(f) => seq!["worktree"@, "add"@, "-b"@, branch@, path@, f@],
        None => seq!["worktree"@, "add"@, "-b"@, branch@, path@],
    }));
    r
}

/// `git worktree remove <path> [--force]`, run in the repo root.
pub fn git_worktree_remove(repo_root: &str, path: &str, force: bool) -> (r: CommandSpec)
    ensures
        r@ == worktree_remove_view(repo_root@, path@, force),
{
    let mut args: Vec<String> = Vec::new();
    args.push("worktree".to_owned());
    args.push("remove".to_owned());
    args.push(path.to_owned());
    if force {
        args.push("--force".to_owned());
    }
    let r = CommandSpec { program: "git".to_owned(), args, cwd: Some(repo_root.to_owned()), env: Vec::new() };
    assert(r@.env =~= Seq::<(Seq<char>, Seq<char>)>::empty());
    assert(r@.args =~= (if force {
        seq!["worktree"@, "remove"@, path@, "--force"@]
    } else {
        seq!["worktree"@, "remove"@, path@]
    }));
    r
}

/// `git status --porcelain`, run in the worktree.
pub fn git_status(path: &str) -> (r: CommandSpec)
    ensures
        r@ == (CommandView {
            program: "git"@,
            args: seq!["status"@, "--porcelain"@],
            cwd: Some(path@),
            env: seq![],
        }),
{
    let r = CommandSpec { program: "git".to_owned(), args: strings2("status", "--porcelain"), cwd: Some(path.to_owned()), env: Vec::new() };
    assert(r@.env =~= Seq::<(Seq<char>, Seq<char>)>::empty());
    r
}

/// `git rev-parse --show-toplevel`, run where devtree was started.
pub fn git_toplevel() -> (r: CommandSpec)
    ensures
        r@ == (CommandView { program: "git"@, args: seq!["rev-parse"@, "--show-toplevel"@], cwd: None, env: seq![] }),
{
    let r = CommandSpec { program: "git".to_owned(), args: strings2("rev-parse", "--show-toplevel"), cwd: None, env: Vec::new() };
    assert(r@.env =~= Seq::<(Seq<char>, Seq<char>)>::empty());
    r
}

/// `git rev-parse --git-common-dir`, run in the repo root.
pub fn git_common_dir(repo_root: &str) -> (r: CommandSpec)
    ensures
        r@ == (CommandView {
            program: "git"@,
            args: seq!["rev-parse"@, "--git-common-dir"@],
            cwd: Some(repo_root@),
            env: seq![],
        }),
{
    let r = CommandSpec { program: "git".to_owned(), args: strings2("rev-parse", "--git-common-dir"), cwd: Some(repo_root.to_owned()), env: Vec::new() };
    assert(r@.env =~= Seq::<(Seq<char>, Seq<char>)>::empty());
    r
}

/// `kill <pid>`: stops a process.
pub fn kill_command(pid: u32) -> (r: CommandSpec)
    ensures
        r@ == (CommandView { program: "kill"@, args: seq![decimal(pid as nat)], cwd: None, env: seq![] }),
{
    let mut args: Vec<String> = Vec::new();
    args.push(decimal_text(pid as u64));
    let r = CommandSpec { program: "kill".to_owned(), args, cwd: None, env: Vec::new() };
    assert(r@.env =~= Seq::<(Seq<char>, Seq<char>)>::empty());
    assert(r@.args =~= seq![decimal(pid as nat)]);
    r
}

/// `kill -0 <pid>`: succeeds exactly when the process is alive.
pub fn liveness_probe(pid: u32) -> (r: CommandSpec)
    ensures
        r@ == (CommandView { program: "kill"@, args: seq!["-0"@, decimal(pid as nat)], cwd: None, env: seq![] }),
{
    let n = decimal_text(pid as u64);
    let r = CommandSpec { program: "kill".to_owned(), args: strings2("-0", n.as_str()), cwd: None, env: Vec::new() };
    assert(r@.env =~= Seq::<(Seq<char>, Seq<char>)>::empty());
    r
}

/// `sh -lc "command -v <name>"`: finds a tool on `PATH`.
pub fn tool_lookup(name: &str) -> (r: CommandSpec)
    ensures
        r@ == (CommandView { program: "sh"@, args: seq!["-lc"@, "command -v "@ + name@], cwd: None, env: seq![] }),
{
    let line = concat("command -v ", name);
    shell_command("sh", line.as_str())
}

} // verus!
