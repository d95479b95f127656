use qeet::git::FailureKind;
use qeet::git::classify::{classify, relevant_stderr};

#[test]
fn classifies_authentication_failures() {
    for stderr in [
        "git@github.com: Permission denied (publickey).\r\nfatal: Could not read from remote repository.",
        "fatal: Authentication failed for 'https://github.com/qeetgroup/qeet-id-server.git/'",
        "fatal: could not read Username for 'https://github.com': terminal prompts disabled",
        "Host key verification failed.\nfatal: Could not read from remote repository.",
        "remote: HTTP Basic: Access denied",
    ] {
        assert_eq!(classify(stderr), FailureKind::Auth, "{stderr}");
    }
}

#[test]
fn classifies_missing_repositories() {
    for stderr in [
        "remote: Repository not found.\nfatal: repository 'https://github.com/qeetgroup/nope.git/' not found",
        "fatal: '/tmp/nope.git' does not appear to be a git repository",
    ] {
        assert_eq!(classify(stderr), FailureKind::NotFound, "{stderr}");
    }
}

#[test]
fn classifies_missing_refs() {
    for stderr in [
        "fatal: Remote branch nope not found in upstream origin",
        "fatal: couldn't find remote ref refs/heads/nope",
    ] {
        assert_eq!(classify(stderr), FailureKind::InvalidRef, "{stderr}");
    }
}

#[test]
fn classifies_transient_transport_failures() {
    for stderr in [
        "ssh: Could not resolve hostname github.com: nodename nor servname provided",
        "fatal: unable to access 'https://github.com/x.git/': Failed to connect to github.com port 443: Operation timed out",
        "error: RPC failed; curl 56 Recv failure: Connection reset by peer\nfatal: early EOF",
        "fatal: The remote end hung up unexpectedly",
    ] {
        assert_eq!(classify(stderr), FailureKind::Transient, "{stderr}");
    }
}

#[test]
fn classifies_destination_problems() {
    let stderr =
        "fatal: destination path 'qeet-id-server' already exists and is not an empty directory.";
    assert_eq!(classify(stderr), FailureKind::Workspace);
}

#[test]
fn unrecognised_output_is_unknown() {
    assert_eq!(classify("fatal: something nobody has seen before"), FailureKind::Unknown);
    assert_eq!(classify(""), FailureKind::Unknown);
}

#[test]
fn only_transient_failures_are_retried() {
    assert!(FailureKind::Transient.retryable());
    for kind in [
        FailureKind::Auth,
        FailureKind::NotFound,
        FailureKind::InvalidRef,
        FailureKind::Workspace,
        FailureKind::Unknown,
        FailureKind::Spawn,
    ] {
        assert!(!kind.retryable(), "{kind:?} must not be retried");
    }
}

#[test]
fn every_kind_has_a_summary_and_guidance() {
    for kind in [
        FailureKind::Auth,
        FailureKind::NotFound,
        FailureKind::InvalidRef,
        FailureKind::Transient,
        FailureKind::Workspace,
        FailureKind::Unknown,
        FailureKind::Spawn,
    ] {
        assert!(!kind.summary().is_empty(), "{kind:?}");
        assert!(!kind.guidance().is_empty(), "{kind:?}");
    }
}

#[test]
fn extracts_the_useful_lines_and_drops_progress_noise() {
    let stderr = "Cloning into 'x'...\rreceiving objects:  10% (1/10)\rreceiving objects: 100% (10/10)\r\nremote: Repository not found.\nfatal: repository not found";
    let relevant = relevant_stderr(stderr);
    assert!(relevant.contains("remote: Repository not found."), "{relevant}");
    assert!(relevant.contains("fatal: repository not found"), "{relevant}");
    assert!(!relevant.contains("receiving objects"), "{relevant}");
}

#[test]
fn falls_back_to_raw_output_when_nothing_matches() {
    let relevant = relevant_stderr("something\nnobody\nrecognises");
    assert!(relevant.contains("recognises"), "{relevant}");
}

#[test]
fn caps_how_much_is_shown() {
    let stderr = (0..50).map(|i| format!("fatal: line {i}")).collect::<Vec<_>>().join("\n");
    assert!(relevant_stderr(&stderr).lines().count() <= 6);
}

#[test]
fn the_relevant_lines_are_joined_exactly() {
    assert_eq!(relevant_stderr("noise\nfatal: one\n  error: two  \n"), "fatal: one\nerror: two");
    assert_eq!(relevant_stderr("a\nb"), "a\nb");
    assert_eq!(relevant_stderr(""), "");
    let stderr = (0..10).map(|i| format!("line {i}")).collect::<Vec<_>>().join("\n");
    assert_eq!(relevant_stderr(&stderr), "line 4\nline 5\nline 6\nline 7\nline 8\nline 9");
}

#[test]
fn a_remote_branch_needs_not_found_to_be_a_missing_ref() {
    assert_eq!(classify("fatal: Remote branch nope not found"), FailureKind::InvalidRef);
    assert_eq!(classify("fatal: remote branch trouble"), FailureKind::Unknown);
}

#[test]
fn summaries_are_written_in_the_cli_voice() {
    assert_eq!(FailureKind::Auth.summary(), "Git authentication failed.");
    assert_eq!(FailureKind::Spawn.guidance(), vec!["Install git and make sure it is on your PATH."]);
}
