use std::time::Duration;

use qeet::clone::coordinator::{
    AttemptStep, Options, after_attempt, assemble_report, backoff, cancelled, clone_request,
    default_concurrency, immediate, may_remove_partial_clone, parent_unavailable,
    settle_without_git, should_retry,
};
use qeet::clone::report::{Outcome, Report, RepositoryReport};
use qeet::git::{Failure, FailureKind};
use qeet::workspace::{Blocked, Plan, State};

fn entry(name: &str, outcome: Outcome) -> RepositoryReport {
    RepositoryReport {
        name: name.into(),
        display: name.into(),
        outcome,
        duration: Duration::from_millis(1),
        attempts: 1,
    }
}

fn failure() -> Outcome {
    Outcome::Failed(Failure {
        kind: FailureKind::Auth,
        exit_code: Some(128),
        git_stderr: "Permission denied (publickey)".into(),
    })
}

fn report(repositories: Vec<RepositoryReport>, cancelled: bool) -> Report {
    Report { product_name: "Qeet ID".into(), repositories, cancelled, elapsed: Duration::from_secs(1) }
}

#[test]
fn a_clean_run_is_complete() {
    let report =
        report(vec![entry("a", Outcome::Cloned), entry("b", Outcome::AlreadyPresent)], false);
    assert_eq!(report.total(), 2);
    assert_eq!(report.cloned(), 1);
    assert_eq!(report.already_present(), 1);
    assert_eq!(report.succeeded(), 2);
    assert_eq!(report.failed(), 0);
    assert!(report.is_complete(), "already-present must count as success");
    assert_eq!(report.problems().len(), 0);
}

#[test]
fn a_partial_failure_counts_both_sides() {
    let report = report(
        vec![
            entry("repo1", Outcome::Cloned),
            entry("repo2", Outcome::Cloned),
            entry("repo3", failure()),
            entry("repo4", Outcome::Cloned),
            entry("repo5", Outcome::Cloned),
            entry("repo6", Outcome::Blocked(Blocked::NotARepository)),
        ],
        false,
    );

    assert_eq!(report.succeeded(), 4);
    assert_eq!(report.failed(), 2);
    assert!(!report.is_complete(), "must not report success");

    let names: Vec<&str> = report.problems().iter().map(|entry| entry.name.as_str()).collect();
    assert_eq!(names, ["repo3", "repo6"], "problems keep manifest order");
}

#[test]
fn cancellation_is_never_reported_as_complete() {
    let report = report(vec![entry("a", Outcome::Cloned), entry("b", Outcome::Cancelled)], true);
    assert_eq!(report.cancelled_repositories(), 1);
    assert!(!report.is_complete());
}

#[test]
fn outcome_labels_are_distinct() {
    let labels = [
        Outcome::Cloned.label(),
        Outcome::AlreadyPresent.label(),
        failure().label(),
        Outcome::Blocked(Blocked::NotARepository).label(),
        Outcome::Cancelled.label(),
    ];
    let unique: std::collections::HashSet<_> = labels.iter().collect();
    assert_eq!(unique.len(), labels.len(), "{labels:?}");
}

#[test]
fn backoff_grows_and_stays_within_its_jitter_band() {
    let nanos = std::time::SystemTime::now()
        .duration_since(std::time::UNIX_EPOCH)
        .map_or(0, |elapsed| u64::from(elapsed.subsec_nanos()));
    for (attempt, base) in [(1u32, 500u64), (2, 1500)] {
        let waited = backoff(attempt, nanos);
        let spread = base / 5;
        assert!(
            (base - spread..=base + spread).contains(&waited),
            "attempt {attempt}: {waited}ms outside {}..={}",
            base - spread,
            base + spread
        );
    }
    assert!(backoff(2, nanos) > backoff(1, nanos) - 200, "backoff should grow");
}

#[test]
fn backoff_jitter_covers_its_whole_band() {
    assert_eq!(backoff(1, 0), 400);
    assert_eq!(backoff(1, 200), 600);
    assert_eq!(backoff(1, 201), 400);
    assert_eq!(backoff(2, 300), 1500);
    assert_eq!(backoff(3, 0), 3600);
    assert_eq!(backoff(0, 100), 500);
}

#[test]
fn the_default_concurrency_is_clamped() {
    assert_eq!(default_concurrency(Some(0)), 1);
    assert_eq!(default_concurrency(Some(3)), 3);
    assert_eq!(default_concurrency(Some(64)), 8);
    assert_eq!(default_concurrency(None), 4);
    let options = Options::for_machine(Some(2));
    assert_eq!((options.concurrency, options.max_retries), (2, 2));
}

#[test]
fn retries_stop_at_the_ceiling_and_skip_what_retrying_cannot_fix() {
    let transient = Failure { kind: FailureKind::Transient, exit_code: Some(128), git_stderr: String::new() };
    let auth = Failure { kind: FailureKind::Auth, exit_code: Some(128), git_stderr: String::new() };
    assert!(should_retry(&transient, 1, 2));
    assert!(should_retry(&transient, 2, 2));
    assert!(!should_retry(&transient, 3, 2), "must not retry forever");
    assert!(!should_retry(&auth, 1, 2), "an auth failure is attempted once");
}

fn plan(name: &str, state: State) -> Plan {
    Plan {
        name: name.into(),
        url: format!("git@github.com:qeetgroup/{name}.git"),
        git_ref: None,
        destination: format!("/w/{name}"),
        display: name.into(),
        state,
    }
}

#[test]
fn blocked_and_present_repositories_are_settled_without_git() {
    let plans = vec![
        plan("repo0", State::Create),
        plan("repo1", State::AlreadyPresent),
        plan("repo2", State::Blocked(Blocked::NotADirectory)),
        plan("repo3", State::FillEmpty),
    ];
    let (slots, queued) = settle_without_git(&plans);
    assert_eq!(queued, vec![0, 3]);
    assert!(slots[0].is_none() && slots[3].is_none());
    assert!(matches!(slots[1].as_ref().unwrap().outcome, Outcome::AlreadyPresent));
    assert!(matches!(slots[2].as_ref().unwrap().outcome, Outcome::Blocked(Blocked::NotADirectory)));
    assert_eq!(slots[2].as_ref().unwrap().attempts, 0);
}

#[test]
fn every_plan_appears_once_in_order_and_unsettled_ones_are_cancelled() {
    let plans = vec![
        plan("repo0", State::Create),
        plan("repo1", State::AlreadyPresent),
        plan("repo2", State::Create),
        plan("repo3", State::Create),
    ];
    let (mut slots, _) = settle_without_git(&plans);
    slots[2] = Some(RepositoryReport {
        name: "repo2".into(),
        display: "repo2".into(),
        outcome: Outcome::Cloned,
        duration: Duration::from_millis(5),
        attempts: 1,
    });
    let attempts = vec![0, 0, 1, 0];
    let report =
        assemble_report("Qeet ID".into(), &plans, slots, &attempts, true, Duration::from_secs(1));
    let names: Vec<&str> = report.repositories.iter().map(|r| r.name.as_str()).collect();
    assert_eq!(names, ["repo0", "repo1", "repo2", "repo3"]);
    assert!(matches!(report.repositories[0].outcome, Outcome::Cancelled));
    assert!(matches!(report.repositories[2].outcome, Outcome::Cloned));
    assert!(matches!(report.repositories[3].outcome, Outcome::Cancelled));
    assert!(report.cancelled && !report.is_complete());
    assert_eq!(immediate(&plans[1], Outcome::AlreadyPresent).attempts, 0);
}

#[test]
fn only_a_destination_this_run_created_may_be_removed() {
    assert!(may_remove_partial_clone(&plan("repo", State::Create), "/w"));
    assert!(!may_remove_partial_clone(&plan("repo", State::FillEmpty), "/w"));
    assert!(!may_remove_partial_clone(&plan("repo", State::AlreadyPresent), "/w"));
    let mut outside = plan("repo", State::Create);
    outside.destination = "/elsewhere/repo".into();
    assert!(!may_remove_partial_clone(&outside, "/w"));
    let mut root = plan("repo", State::Create);
    root.destination = "/w".into();
    assert!(!may_remove_partial_clone(&root, "/w"));
    let mut sibling = plan("repo", State::Create);
    sibling.destination = "/w-evil/repo".into();
    assert!(!may_remove_partial_clone(&sibling, "/w"));
}

#[test]
fn a_clone_request_carries_the_plan() {
    let mut p = plan("repo", State::Create);
    p.git_ref = Some("develop".into());
    let r = clone_request(&p);
    assert_eq!(r.name, "repo");
    assert_eq!(r.url, "git@github.com:qeetgroup/repo.git");
    assert_eq!(r.destination, "/w/repo");
    assert_eq!(r.git_ref.as_deref(), Some("develop"));
    assert_eq!(
        parent_unavailable("permission denied").message(),
        "cannot be inspected: cannot create the parent directory: permission denied"
    );
}

#[test]
fn a_clone_interrupted_after_git_ran_reports_its_attempts() {
    let plans = vec![plan("repo0", State::Create), plan("repo1", State::Create)];
    let (slots, _) = settle_without_git(&plans);
    let attempts = vec![2, 0];
    let report =
        assemble_report("Qeet ID".into(), &plans, slots, &attempts, true, Duration::from_secs(1));
    assert!(matches!(report.repositories[0].outcome, Outcome::Cancelled));
    assert_eq!(report.repositories[0].attempts, 2);
    assert!(matches!(report.repositories[1].outcome, Outcome::Cancelled));
    assert_eq!(report.repositories[1].attempts, 0);
    let entry = cancelled(&plans[0], 3);
    assert_eq!((entry.name.as_str(), entry.attempts), ("repo0", 3));
    assert!(matches!(entry.outcome, Outcome::Cancelled));
}

#[test]
fn each_attempt_is_followed_by_a_retry_or_a_counted_stop() {
    let transient = || Failure { kind: FailureKind::Transient, exit_code: Some(128), git_stderr: String::new() };
    let auth = Failure { kind: FailureKind::Auth, exit_code: Some(128), git_stderr: String::new() };
    assert!(matches!(
        after_attempt(2, Ok(()), 2),
        AttemptStep::Stop { attempts: 2, outcome: Outcome::Cloned, remove_partial: false }
    ));
    assert!(matches!(after_attempt(1, Err(transient()), 2), AttemptStep::Retry { attempts: 1 }));
    assert!(matches!(after_attempt(2, Err(transient()), 2), AttemptStep::Retry { attempts: 2 }));
    match after_attempt(3, Err(transient()), 2) {
        AttemptStep::Stop { attempts, outcome: Outcome::Failed(f), remove_partial } => {
            assert_eq!(attempts, 3);
            assert_eq!(f.kind, FailureKind::Transient);
            assert!(remove_partial);
        }
        _ => panic!("the ceiling must stop the retries"),
    }
    assert!(matches!(
        after_attempt(1, Err(auth), 2),
        AttemptStep::Stop { attempts: 1, outcome: Outcome::Failed(_), remove_partial: true }
    ));
}

#[test]
fn every_retry_waits_longer_than_the_last_whatever_the_clock() {
    for attempt in 1..=34u32 {
        let longest_now = backoff(attempt, 999_999_999);
        let shortest_next = backoff(attempt + 1, 0);
        assert!(shortest_next > longest_now, "attempt {attempt}");
    }
}
