//! What is asked of git.

use goose_harness::git::{
    clone_args, diff_args, exclude_line, failure_text, head_args, untracked_args,
    workspace_dir_name,
};
use goose_harness::profile::WorkspaceSpec;

fn spec(repo: &str, dir: Option<&str>, git_ref: Option<&str>) -> WorkspaceSpec {
    WorkspaceSpec {
        repo: repo.into(),
        dir: dir.map(|s| s.into()),
        git_ref: git_ref.map(|s| s.into()),
    }
}

#[test]
fn the_clone_is_named_after_the_repository() {
    let name = |repo| workspace_dir_name(&spec(repo, None, None));
    assert_eq!(name("https://github.com/example/exercise.git"), "exercise");
    assert_eq!(name("git@host:org/exercise.git"), "exercise");
    assert_eq!(name("https://host/a.git.git"), "a");
    assert_eq!(name("https://github.com/example/exercise.git/"), "exercise");
    assert_eq!(name("https://host/a//"), "a");
    assert_eq!(
        workspace_dir_name(&spec("https://host/a.git", Some("b.git"), None)),
        "b.git"
    );
}

#[test]
fn arguments_of_a_clone() {
    assert_eq!(
        clone_args(&spec("r", None, None), "/t"),
        vec!["clone", "r", "/t"]
    );
    assert_eq!(
        clone_args(&spec("r", None, Some("v1")), "/t"),
        vec!["clone", "r", "--branch", "v1", "/t"]
    );
}

#[test]
fn arguments_of_questions() {
    assert_eq!(head_args(), vec!["rev-parse", "HEAD"]);
    assert_eq!(diff_args("abc"), vec!["diff", "abc"]);
    assert_eq!(
        untracked_args(),
        vec!["ls-files", "--others", "--exclude-standard"]
    );
}

#[test]
fn failures_name_the_command_and_the_complaint() {
    assert_eq!(
        failure_text(&diff_args("abc"), " fatal: bad revision\n"),
        "git diff abc failed: fatal: bad revision"
    );
}

#[test]
fn the_harness_directory_is_excluded_once() {
    for existing in ["", "# comment\n*.swp\n", "x\r\n"] {
        let line = exclude_line(existing).unwrap();
        assert_eq!(line, ".goose-harness/\n");
        assert_eq!(exclude_line(&(existing.to_string() + &line)), None);
    }
    assert_eq!(exclude_line("a\n  .goose-harness/ \r\nb"), None);
    assert!(exclude_line(".goose-harness\n").is_some());
}

#[test]
fn a_line_that_is_not_ended_is_ended_first() {
    for existing in ["*.log", "a\n \t", "a\nb\r"] {
        let line = exclude_line(existing).unwrap();
        assert_eq!(line, "\n.goose-harness/\n");
        let content = existing.to_string() + &line;
        assert_eq!(exclude_line(&content), None);
        let lines: Vec<&str> = content.lines().collect();
        let old: Vec<&str> = existing.lines().map(|l| l.trim_end_matches('\r')).collect();
        assert_eq!(lines[..old.len()], old[..]);
        assert_eq!(lines[old.len()..], [".goose-harness/"]);
    }
}
