use qeet::git::status::{decide_ssh_command_for, describe_status, parse_status, status_is_parseable};
use qeet::git::{
    CloneRequest, FailureKind, GitError, clone_args, failure_from_output, git_entry,
    origin_from_output, spawn_failure, status_failed, version_failed,
};

#[test]
fn parses_a_clean_current_repository() {
    let out = "# branch.oid 8f1b0c2\n\
               # branch.head main\n\
               # branch.upstream origin/main\n\
               # branch.ab +0 -0\n";
    let s = parse_status(out);
    assert_eq!(s.branch.as_deref(), Some("main"));
    assert_eq!(s.upstream.as_deref(), Some("origin/main"));
    assert_eq!((s.ahead, s.behind, s.dirty), (0, 0, 0));
    assert!(s.up_to_date());
}

#[test]
fn parses_ahead_and_behind() {
    let out = "# branch.head develop\n\
               # branch.upstream origin/develop\n\
               # branch.ab +2 -5\n";
    let s = parse_status(out);
    assert_eq!((s.ahead, s.behind), (2, 5));
    assert!(!s.fast_forwardable(), "diverged must not be fast-forwarded");
}

#[test]
fn counts_every_kind_of_change() {
    let out = "# branch.head main\n\
               # branch.upstream origin/main\n\
               # branch.ab +0 -0\n\
               1 .M N... 100644 100644 100644 abc abc src/main.rs\n\
               1 M. N... 100644 100644 100644 abc abc Cargo.toml\n\
               2 R. N... 100644 100644 100644 abc abc R100 new\told\n\
               u UU N... 100644 100644 100644 100644 abc abc abc conflicted.rs\n\
               ? untracked.txt\n";
    let s = parse_status(out);
    assert_eq!(s.dirty, 5, "modified, staged, renamed, unmerged and untracked all count");
    assert!(!s.fast_forwardable());
    assert!(s.blocker().unwrap().contains("uncommitted"));
}

#[test]
fn detects_a_detached_head() {
    let out = "# branch.oid 8f1b0c2\n# branch.head (detached)\n";
    let s = parse_status(out);
    assert_eq!(s.branch, None);
    assert_eq!(s.blocker().unwrap(), "detached HEAD");
}

#[test]
fn a_branch_with_no_upstream_has_no_ab_line() {
    let out = "# branch.head local-only\n";
    let s = parse_status(out);
    assert_eq!(s.branch.as_deref(), Some("local-only"));
    assert_eq!(s.upstream, None);
    assert_eq!(s.blocker().unwrap(), "no upstream branch");
}

#[test]
fn respects_a_developers_own_ssh_command() {
    assert_eq!(
        decide_ssh_command_for(Some("ssh -i ~/.ssh/work"), false),
        None,
        "an inherited GIT_SSH_COMMAND must not be overridden"
    );
    assert_eq!(
        decide_ssh_command_for(None, true),
        None,
        "a configured core.sshCommand must not be overridden"
    );
    assert_eq!(
        decide_ssh_command_for(None, false).as_deref(),
        Some("ssh -o BatchMode=yes"),
        "with no preference expressed, batch mode prevents a hung prompt"
    );
    assert_eq!(
        decide_ssh_command_for(Some(""), false).as_deref(),
        Some("ssh -o BatchMode=yes"),
        "an empty GIT_SSH_COMMAND is not a preference"
    );
}

fn request() -> CloneRequest {
    CloneRequest {
        name: "qeet-id-server".into(),
        url: "git@github.com:qeetgroup/qeet-id-server.git".into(),
        destination: "/work/qeet-id-server".into(),
        git_ref: None,
    }
}

#[test]
fn builds_a_plain_clone() {
    assert_eq!(
        clone_args(&request()),
        [
            "clone",
            "--progress",
            "--",
            "git@github.com:qeetgroup/qeet-id-server.git",
            "/work/qeet-id-server",
        ]
    );
}

#[test]
fn builds_a_clone_pinned_to_a_ref() {
    let request = CloneRequest { git_ref: Some("develop".into()), ..request() };
    assert_eq!(
        clone_args(&request),
        [
            "clone",
            "--progress",
            "--branch",
            "develop",
            "--",
            "git@github.com:qeetgroup/qeet-id-server.git",
            "/work/qeet-id-server",
        ]
    );
}

#[test]
fn the_url_always_sits_after_a_double_dash() {
    let request = CloneRequest { url: "--upload-pack=touch /tmp/pwned".into(), ..request() };
    let args = clone_args(&request);
    let separator = args.iter().position(|arg| arg == "--").expect("`--` must be present");
    let url = args
        .iter()
        .position(|arg| arg == "--upload-pack=touch /tmp/pwned")
        .expect("url must be present");
    assert!(separator < url, "the URL must follow `--`: {args:?}");
}

#[test]
fn a_state_reports_its_blockers_in_order() {
    let s = parse_status("# branch.head main\n# branch.upstream origin/main\n# branch.ab +1 -0\n");
    assert_eq!(s.blocker().unwrap(), "1 unpushed commit");
    let s = parse_status("# branch.head main\n# branch.upstream origin/main\n# branch.ab +0 -3\n");
    assert_eq!(s.blocker(), None);
    assert!(s.fast_forwardable());
    let s = parse_status("# branch.head main\n# branch.upstream origin/main\n? a\n? b\n");
    assert_eq!(s.blocker().unwrap(), "2 uncommitted changes");
}

#[test]
fn crlf_output_is_read_like_plain_output() {
    let s = parse_status("# branch.head main\r\n# branch.upstream origin/main\r\n# branch.ab +0 -2\r\n");
    assert_eq!(s.branch.as_deref(), Some("main"));
    assert_eq!(s.upstream.as_deref(), Some("origin/main"));
    assert_eq!(s.behind, 2);
}

#[test]
fn failures_keep_gits_own_words() {
    let f = failure_from_output("Cloning into 'x'...\nremote: Repository not found.\n", Some(128));
    assert_eq!(f.kind, FailureKind::NotFound);
    assert_eq!(f.exit_code, Some(128));
    assert_eq!(f.git_stderr, "remote: Repository not found.");
    assert!(!f.retryable());
    let f = spawn_failure("No such file or directory (os error 2)");
    assert_eq!(f.kind, FailureKind::Spawn);
    assert_eq!(f.exit_code, None);
    assert_eq!(f.git_stderr, "No such file or directory (os error 2)");
}

#[test]
fn an_origin_is_read_only_from_a_successful_lookup() {
    assert_eq!(origin_from_output(true, "git@github.com:a/b.git\n").as_deref(), Some("git@github.com:a/b.git"));
    assert_eq!(origin_from_output(true, "  \n"), None);
    assert_eq!(origin_from_output(false, "git@github.com:a/b.git\n"), None);
}

#[test]
fn git_errors_explain_themselves() {
    assert_eq!(
        GitError::NotFound.message(),
        "`git` was not found. Install git and make sure it is on your PATH."
    );
    assert_eq!(
        version_failed(Some(-1)).message(),
        "`git` could not be run: `git --version` exited with code -1"
    );
    assert_eq!(describe_status(None), "a signal");
    assert_eq!(
        status_failed("/w/repo", "fatal: not a git repository\n").message(),
        "`git` could not be run: `git status` failed in /w/repo: fatal: not a git repository"
    );
    assert_eq!(git_entry("/w/repo"), "/w/repo/.git");
    assert_eq!(git_entry("/w/repo/"), "/w/repo/.git");
}

#[test]
fn status_output_with_ascii_counts_is_parseable() {
    assert!(status_is_parseable("# branch.head main\n# branch.ab +1 -2\n1 .M N... x\n"));
    assert!(status_is_parseable(""));
    assert!(!status_is_parseable("# branch.ab \u{e9}1 -2\n"));
}
