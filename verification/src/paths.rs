//! Unix path arithmetic on strings: joining as `Path::join` does, resolving
//! repo-relative paths, the last component as `Path::file_name` gives it, and
//! the places devtree puts worktrees, logs, config and state.

use vstd::prelude::*;
use crate::branch::{lemma_sanitized_chars, lemma_sanitized_ends, sanitize_branch, sanitized};
use crate::error::DevtreeError;
use crate::host::{state_dir, state_dir_error};
use crate::text::{chars_of, concat, push_char, string_of, sub_chars, trimmed_end, trim_end,
    lemma_trailing_count};

verus! {

/// A path is absolute when it starts at the root `/`.
pub open spec fn is_absolute(p: Seq<char>) -> bool {
    p.len() > 0 && p[0] == '/'
}

/// `base.join(p)`: an absolute `p` replaces `base`; otherwise `p` is appended,
/// with a `/` in between when `base` is not empty and does not already end in one.
pub open spec fn joined(base: Seq<char>, p: Seq<char>) -> Seq<char> {
    if is_absolute(p) {
        p
    } else if base.len() > 0 && base.last() != '/' {
        base + seq!['/'] + p
    } else {
        base + p
    }
}

/// Whether `p` is absolute.
pub fn path_is_absolute(p: &str) -> (r: bool)
    ensures
        r == is_absolute(p@),
{
    let v = chars_of(p);
    v.len() > 0 && v[0] == '/'
}

/// `base` joined with `p`.
pub fn join_path(base: &str, p: &str) -> (r: String)
    ensures
        r@ == joined(base@, p@),
{
    if path_is_absolute(p) {
        return p.to_owned();
    }
    let b = chars_of(base);
    if b.len() > 0 && b[b.len() - 1] != '/' {
        let mut s = base.to_owned();
        push_char(&mut s, '/');
        s.append(p);
        s
    } else {
        concat(base, p)
    }
}

/// `path` taken relative to `repo_root` unless it is absolute.
pub fn resolve_repo_relative(repo_root: &str, path: &str) -> (r: String)
    ensures
        r@ == (if is_absolute(path@) { path@ } else { joined(repo_root@, path@) }),
{
    if path_is_absolute(path) {
        path.to_owned()
    } else {
        join_path(repo_root, path)
    }
}

/// The working directory of a setup step or app when none is given: `.`.
pub fn default_cwd() -> (r: String)
    ensures
        r@ == seq!['.'],
{
    let mut s = String::new();
    push_char(&mut s, '.');
    s
}

/// Start of the last `/`-separated segment of `t`.
pub open spec fn segment_start(t: Seq<char>) -> int
    decreases t.len(),
{
    if t.len() == 0 {
        0
    } else if t.last() == '/' {
        t.len() as int
    } else {
        segment_start(t.drop_last())
    }
}

/// `segment_start` lies within `t`, no `/` follows it, and one precedes it.
pub proof fn lemma_segment_start(t: Seq<char>)
    ensures
        0 <= segment_start(t) <= t.len(),
        t.len() > 0 && t.last() != '/' ==> segment_start(t) < t.len(),
        forall|j: int| segment_start(t) <= j < t.len() ==> t[j] != '/',
        segment_start(t) > 0 ==> t[segment_start(t) - 1] == '/',
    decreases t.len(),
{
    if t.len() > 0 && t.last() != '/' {
        lemma_segment_start(t.drop_last());
        assert forall|j: int| segment_start(t) <= j < t.len() implies t[j] != '/' by {
            if j < t.len() - 1 {
                assert(t[j] == t.drop_last()[j]);
            }
        }
        if segment_start(t) > 0 {
            assert(t[segment_start(t) - 1] == t.drop_last()[segment_start(t) - 1]);
        }
    }
}

/// The last component of `p` as `Path::file_name` gives it: trailing `/` and
/// `.` components are passed over; `..`, the root and the empty path have none.
pub open spec fn file_name(p: Seq<char>) -> Option<Seq<char>>
    decreases p.len(),
{
    let t = trim_end(p, '/');
    if t.len() == 0 {
        None
    } else {
        let st = segment_start(t);
        let seg = t.skip(st);
        if seg == seq!['.'] {
            proof {
                lemma_trailing_count(p, '/');
                lemma_segment_start(t);
            }
            file_name(t.take(st))
        } else if seg == seq!['.', '.'] {
            None
        } else {
            Some(seg)
        }
    }
}

fn segment_start_exec(t: &Vec<char>) -> (r: usize)
    ensures
        r == segment_start(t@),
{
    let mut n: usize = t.len();
    assert(t@.take(n as int) =~= t@);
    while n > 0 && t[n - 1] != '/'
        invariant
            n <= t@.len(),
            segment_start(t@) == segment_start(t@.take(n as int)),
        decreases n,
    {
        assert(t@.take(n as int).drop_last() =~= t@.take(n - 1));
        n = n - 1;
    }
    if n > 0 {
        assert(t@.take(n as int).last() == '/');
    }
    n
}

fn file_name_chars(p: &Vec<char>) -> (r: Option<Vec<char>>)
    ensures
        r matches Some(v) ==> file_name(p@) == Some(v@),
        r is None ==> file_name(p@) is None,
    decreases p@.len(),
{
    let t = trimmed_end(p, '/');
    if t.len() == 0 {
        return None;
    }
    proof {
        lemma_trailing_count(p@, '/');
        lemma_segment_start(t@);
    }
    let st = segment_start_exec(&t);
    let seg = sub_chars(&t, st, t.len());
    assert(seg@ == t@.skip(st as int));
    if seg.len() == 1 && seg[0] == '.' {
        assert(seg@ =~= seq!['.']);
        let head = sub_chars(&t, 0, st);
        assert(head@ == t@.take(st as int));
        file_name_chars(&head)
    } else if seg.len() == 2 && seg[0] == '.' && seg[1] == '.' {
        assert(seg@ =~= seq!['.', '.']);
        None
    } else {
        assert(seg@ != seq!['.']);
        assert(seg@ != seq!['.', '.']);
        Some(seg)
    }
}

/// The last component of `p`, if it has one.
pub fn path_file_name(p: &str) -> (r: Option<String>)
    ensures
        r matches Some(s) ==> file_name(p@) == Some(s@),
        r is None ==> file_name(p@) is None,
{
    let v = chars_of(p);
    match file_name_chars(&v) {
        Some(n) => Some(string_of(n.as_slice())),
        None => None,
    }
}

/// Where the managed log of `app` under `branch` of project `repo` lives, below `state_dir`.
pub open spec fn log_file(state_dir: Seq<char>, repo: Seq<char>, branch: Seq<char>, app: Seq<char>) -> Seq<char> {
    joined(joined(joined(joined(state_dir, "logs"@), repo), sanitized(branch)), app + ".log"@)
}

/// The log layout in plain text: `<state-dir>/logs/<repo>/<branch>/<app>.log`
/// with the branch sanitized, for a state directory not ending in `/` and a
/// repository name and app name that are not empty and neither begin nor end
/// with `/`.
pub proof fn law_log_file_layout(state_dir: Seq<char>, repo: Seq<char>, branch: Seq<char>, app: Seq<char>)
    requires
        state_dir.len() > 0,
        state_dir.last() != '/',
        repo.len() > 0,
        repo[0] != '/',
        repo.last() != '/',
        app.len() > 0,
        app[0] != '/',
        sanitized(branch).len() > 0,
    ensures
        log_file(state_dir, repo, branch, app) == state_dir + "/logs/"@ + repo + seq!['/'] + sanitized(branch) + seq![
            '/',
        ] + app + ".log"@,
{
    reveal_strlit("logs");
    reveal_strlit("/logs/");
    reveal_strlit(".log");
    lemma_sanitized_chars(branch);
    lemma_sanitized_ends(branch);
    let s = sanitized(branch);
    assert(s[0] != '/');
    assert(s.last() != '/');
    let a = joined(state_dir, "logs"@);
    assert(a == state_dir + seq!['/'] + "logs"@);
    assert(a.last() == 's');
    let b = joined(a, repo);
    assert(b == a + seq!['/'] + repo);
    assert(b.last() == repo.last());
    let c = joined(b, s);
    assert(c == b + seq!['/'] + s);
    assert(c.last() == s.last());
    let f = app + ".log"@;
    assert(f[0] == app[0]);
    assert(joined(c, f) == c + seq!['/'] + f);
    assert(state_dir + "/logs/"@ + repo + seq!['/'] + s + seq!['/'] + app + ".log"@ =~= c + seq!['/'] + f);
}

/// The log path below a given state directory:
/// `<state-dir>/logs/<repo>/<branch>/<app>.log`, the branch sanitized.
pub fn log_path_in(state_dir: &str, repo: &str, branch: &str, app: &str) -> (r: String)
    ensures
        r@ == log_file(state_dir@, repo@, branch@, app@),
{
    let logs = join_path(state_dir, "logs");
    let project = join_path(logs.as_str(), repo);
    let b = sanitize_branch(branch);
    let dir = join_path(project.as_str(), b.as_str());
    let file = concat(app, ".log");
    join_path(dir.as_str(), file.as_str())
}

/// The log path of `app` under `branch` of project `repo`, below the user's state directory.
pub fn log_path(repo: &str, branch: &str, app: &str) -> (r: Result<String, DevtreeError>)
    ensures
        r matches Ok(p) ==> exists|d: Seq<char>| p@ == log_file(d, repo@, branch@, app@),
        r matches Err(e) ==> state_dir_error(e),
{
    let dir = state_dir()?;
    Ok(log_path_in(dir.as_str(), repo, branch, app))
}

/// The name of devtree's config file in the repo root.
pub open spec fn config_file_name() -> Seq<char> {
    ".devtree.yml"@
}

/// The config file of the repo at `repo_root`.
pub fn config_path(repo_root: &str) -> (r: String)
    ensures
        r@ == joined(repo_root@, config_file_name()),
{
    join_path(repo_root, ".devtree.yml")
}

/// The state file below `state_dir`.
pub fn state_file_path(state_dir: &str) -> (r: String)
    ensures
        r@ == joined(state_dir@, "state.json"@),
{
    join_path(state_dir, "state.json")
}

} // verus!
