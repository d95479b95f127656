use std::time::Duration;

use qeet::clone::report::{Outcome, Report, RepositoryReport};
use qeet::git::{Failure, FailureKind};
use qeet::output::plain::Plain;
use qeet::output::progress::{finished_row, header_line, retrying_message};
use qeet::output::style::symbol;
use qeet::output::{headline, indent_continuation, problem_report, summary};
use qeet::workspace::Blocked;

fn report(repositories: Vec<RepositoryReport>, cancelled: bool) -> Report {
    Report {
        product_name: "Qeet ID".into(),
        repositories,
        cancelled,
        elapsed: Duration::from_millis(4_200),
    }
}

fn entry(name: &str, outcome: Outcome) -> RepositoryReport {
    RepositoryReport {
        name: name.into(),
        display: name.into(),
        outcome,
        duration: Duration::from_millis(10),
        attempts: 1,
    }
}

#[test]
fn a_clean_run_headline_reports_the_total_and_the_time() {
    let report = report(vec![entry("a", Outcome::Cloned)], false);
    assert_eq!(headline(&report, "4.2s"), "Qeet ID: 1 of 1 repositories in 4.2s.");
}

#[test]
fn a_failed_run_headline_says_so() {
    let report = report(
        vec![
            entry("a", Outcome::Cloned),
            entry(
                "b",
                Outcome::Failed(Failure {
                    kind: FailureKind::Auth,
                    exit_code: Some(128),
                    git_stderr: "Permission denied (publickey)".into(),
                }),
            ),
        ],
        false,
    );
    assert_eq!(headline(&report, "4.2s"), "Qeet ID: completed with errors. 1 of 2 succeeded.");
}

#[test]
fn a_cancelled_run_headline_says_so_even_when_nothing_failed() {
    let report = report(vec![entry("a", Outcome::Cloned), entry("b", Outcome::Cancelled)], true);
    assert_eq!(headline(&report, "4.2s"), "Qeet ID: cancelled. 1 of 2 repositories completed.");
}

#[test]
fn multiline_block_reasons_stay_aligned() {
    let indented = indent_continuation("first\nsecond");
    assert_eq!(indented, "first\n  second");
}

#[test]
fn symbols_are_distinct() {
    let all = [symbol::OK, symbol::BAD, symbol::SKIP, symbol::PENDING, symbol::WARN];
    let unique: std::collections::HashSet<_> = all.iter().collect();
    assert_eq!(unique.len(), all.len(), "{all:?}");
}

#[test]
fn the_summary_counts_what_happened() {
    let report = report(
        vec![
            entry("a", Outcome::Cloned),
            entry("b", Outcome::AlreadyPresent),
            entry("c", Outcome::Blocked(Blocked::NotARepository)),
        ],
        false,
    );
    assert_eq!(
        summary(&report, "4.2s"),
        "\nQeet ID: completed with errors. 2 of 3 succeeded.\n\n  Cloned:          1\n  Already present: 1\n  Failed:          1\n"
    );
    let clean = report_clean();
    assert_eq!(
        summary(&clean, "4.2s"),
        "\nQeet ID: 1 of 1 repositories in 4.2s.\n\n  Cloned:          1\n  Failed:          0\n"
    );
}

fn report_clean() -> Report {
    report(vec![entry("a", Outcome::Cloned)], false)
}

#[test]
fn problems_are_explained_with_next_steps() {
    let report = report(
        vec![
            entry("a", Outcome::Cloned),
            entry(
                "b",
                Outcome::Failed(Failure {
                    kind: FailureKind::NotFound,
                    exit_code: Some(128),
                    git_stderr: "remote: Repository not found.\nfatal: repository not found".into(),
                }),
            ),
            entry(
                "c",
                Outcome::Blocked(Blocked::DifferentRepository {
                    origin: "git@github.com:x/y.git".into(),
                    expected: "git@github.com:qeetgroup/c.git".into(),
                }),
            ),
            entry("d", Outcome::Cancelled),
        ],
        true,
    );
    let expected = "\n\
b (failed)\n  The repository does not exist, or you cannot access it.\n  git exited with code 128.\n\n  git:\n    remote: Repository not found.\n    fatal: repository not found\n\n  Next steps:\n    - Confirm the repository name in the manifest.\n    - If it is private, confirm your account has access to it.\n\n\
c (blocked)\n  a different repository is already here\n    found:    git@github.com:x/y.git\n    expected: git@github.com:qeetgroup/c.git\n  at c\n\n  Next steps:\n    - Move or rename that directory, or point the manifest at the right repository.\n\n\
d (cancelled)\n  Not attempted: the run was cancelled.\n\n";
    assert_eq!(problem_report(&report), expected);
    assert_eq!(problem_report(&report_clean()), "");
}

#[test]
fn plain_lines_are_one_per_event() {
    let plain = Plain::new();
    assert_eq!(
        plain.begin_lines("Qeet ID", Some("--manifest /tmp/p.toml"), 2),
        "qeet clone: Qeet ID\n2 repositories\nmanifest: --manifest /tmp/p.toml"
    );
    assert_eq!(plain.begin_lines("Qeet ID", None, 1), "qeet clone: Qeet ID\n1 repositories");
    assert_eq!(plain.started_line("repo"), "cloning repo...");
    assert_eq!(
        plain.retrying_line("repo", 1, "The connection to the remote failed."),
        "repo: The connection to the remote failed. retrying (attempt 2)"
    );
    assert_eq!(plain.finished_line(&entry("repo", Outcome::Cancelled)), "repo: cancelled");
    assert_eq!(plain.cancelling_line(), "interrupted: stopping remaining clones");
}

#[test]
fn progress_rows_say_what_happened() {
    assert_eq!(header_line("Qeet ID", 2), "Qeet ID — 2 repositories");
    assert_eq!(retrying_message(1, "flaky."), "flaky. retrying (attempt 2)");
    let mut cloned = entry("a", Outcome::Cloned);
    assert_eq!(finished_row(&cloned, "1.5s"), "✓ cloned in 1.5s");
    cloned.attempts = 2;
    assert_eq!(finished_row(&cloned, "1.5s"), "✓ cloned in 1.5s after 2 attempts");
    assert_eq!(finished_row(&entry("b", Outcome::Blocked(Blocked::NotADirectory)), "0ms"), "✗ blocked");
    assert_eq!(finished_row(&entry("c", Outcome::AlreadyPresent), "0ms"), "· already present");
}
