use std::path::Path;

use devtree::branch::sanitize_branch;
use devtree::health::join_url;
use devtree::paths::{
    config_path, default_cwd, join_path, log_path, log_path_in, path_file_name, path_is_absolute,
    resolve_repo_relative, state_file_path,
};
use devtree::text::{decimal_text, string_of, text_eq, text_less};

#[test]
fn sanitize_lowers_and_replaces() {
    assert_eq!(sanitize_branch("Feature/Fix Navbar!"), "feature-fix-navbar");
    assert_eq!(sanitize_branch("fix-navbar"), "fix-navbar");
    assert_eq!(sanitize_branch("issue-123"), "issue-123");
}

#[test]
fn sanitize_trims_dashes() {
    assert_eq!(sanitize_branch("--a--"), "a");
    assert_eq!(sanitize_branch("/feature/x/"), "feature-x");
    assert_eq!(sanitize_branch("___"), "");
    assert_eq!(sanitize_branch(""), "");
    assert_eq!(sanitize_branch("ÄB"), "b");
    assert_eq!(sanitize_branch("a__b"), "a--b");
}

fn reference_sanitize(branch: &str) -> String {
    branch
        .chars()
        .map(|ch| {
            if ch.is_ascii_alphanumeric() || ch == '-' {
                ch.to_ascii_lowercase()
            } else {
                '-'
            }
        })
        .collect::<String>()
        .trim_matches('-')
        .to_string()
}

const SAMPLES: &[&str] = &[
    "", "a", "A", "-", "--", "main", "Feature/ABC-12", "fix: bug #7", "ünïcode/Ω", "  spaced  ",
    "x--y", "-lead", "trail-", "Z9_z0", "release/v1.2.3", "日本", "a/b/c/",
];

#[test]
fn sanitize_agrees_with_std_char_methods() {
    for s in SAMPLES {
        assert_eq!(sanitize_branch(s), reference_sanitize(s), "input {s:?}");
    }
}

#[test]
fn sanitize_is_idempotent() {
    for s in SAMPLES {
        let once = sanitize_branch(s);
        assert_eq!(sanitize_branch(&once), once);
        assert!(!once.starts_with('-') && !once.ends_with('-'));
        assert!(once.chars().all(|c| c.is_ascii_lowercase() || c.is_ascii_digit() || c == '-'));
    }
}

const PATHS: &[&str] = &[
    "", "/", "a", "a/", "a/b", "/a/b", "/a/b/", "a//b", ".", "./", "./a", "a/.", "a/./", "..",
    "a/..", "/a/b/..", "...", "/.", "//", "a/b/.//", "/home/alice/myrepo", "repo.git",
];

#[test]
fn join_agrees_with_std_path() {
    for base in PATHS {
        for p in PATHS {
            let expected = Path::new(base).join(p).to_string_lossy().into_owned();
            assert_eq!(join_path(base, p), expected, "join {base:?} {p:?}");
        }
    }
}

#[test]
fn file_name_agrees_with_std_path() {
    for p in PATHS {
        let expected = Path::new(p).file_name().map(|n| n.to_string_lossy().into_owned());
        assert_eq!(path_file_name(p), expected, "file_name {p:?}");
    }
}

#[test]
fn absolute_paths() {
    assert!(path_is_absolute("/a"));
    assert!(!path_is_absolute("a/b"));
    assert!(!path_is_absolute(""));
}

#[test]
fn repo_relative_resolution() {
    assert_eq!(resolve_repo_relative("/repo", "../myapp-worktrees"), "/repo/../myapp-worktrees");
    assert_eq!(resolve_repo_relative("/repo", "/abs/trees"), "/abs/trees");
    assert_eq!(resolve_repo_relative("/repo/", "trees"), "/repo/trees");
}

#[test]
fn default_cwd_is_dot() {
    assert_eq!(default_cwd(), ".");
}

#[test]
fn log_path_layout() {
    assert_eq!(
        log_path_in("/state", "myapp", "Fix/Navbar", "web"),
        "/state/logs/myapp/fix-navbar/web.log"
    );
}

#[test]
fn log_path_below_state_dir() {
    match log_path("myapp", "fix-navbar", "web") {
        Ok(p) => assert!(p.ends_with("/logs/myapp/fix-navbar/web.log"), "{p}"),
        Err(e) => assert!(
            matches!(
                e,
                devtree::error::DevtreeError::NoStateDir | devtree::error::DevtreeError::StateDirNotUnicode
            ),
            "{e:?}"
        ),
    }
}

#[test]
fn config_and_state_files() {
    assert_eq!(config_path("/repo"), "/repo/.devtree.yml");
    assert_eq!(state_file_path("/s/devtree"), "/s/devtree/state.json");
}

#[test]
fn health_url_joins_relative_paths() {
    assert_eq!(
        join_url("https://fix-navbar.myapp.localhost/", "/api/health"),
        "https://fix-navbar.myapp.localhost/api/health"
    );
    assert_eq!(join_url("http://127.0.0.1:3000", "health"), "http://127.0.0.1:3000/health");
    assert_eq!(join_url("http://127.0.0.1:3000//", "//"), "http://127.0.0.1:3000/");
}

#[test]
fn health_url_keeps_absolute_urls() {
    assert_eq!(join_url("https://a.localhost", "http://other/ok"), "http://other/ok");
    assert_eq!(join_url("https://a.localhost", "https://other/ok"), "https://other/ok");
}

#[test]
fn decimal_matches_to_string() {
    for n in [0u64, 7, 10, 45, 999, 1000, 4294967295, u64::MAX] {
        assert_eq!(decimal_text(n), n.to_string());
    }
}

#[test]
fn text_order_matches_string_order() {
    let words = ["", "a", "b", "ab", "abc", "B", "default", "web", "é", "z", "api"];
    for a in words {
        for b in words {
            assert_eq!(text_less(a, b), a < b, "{a:?} < {b:?}");
            assert_eq!(text_eq(a, b), a == b);
        }
    }
}

#[test]
fn string_of_chars() {
    assert_eq!(string_of(&['a', 'é', '/']), "aé/");
    assert_eq!(string_of(&[]), "");
}
