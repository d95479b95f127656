//! The decisions of bounded concurrent cloning.
//!
//! Instead of one sequential `git clone` after another, several run at once -- but never
//! an unbounded number. Repositories are independent: one failing never cancels another,
//! and a `Ctrl-C` stops everything without destroying a finished clone.
//!
//! Running git processes, waiting, and listening for `Ctrl-C` is the caller's work. What
//! needs no git, when to retry, how long to wait, what may be removed after a failure, and
//! how the report is assembled are decided here.
use vstd::prelude::*;

use std::time::Duration;

use super::report::{Outcome, Report, RepositoryReport};
use crate::git::{CloneRequest, Failure, FailureKind};
use crate::text::{copy_opt, copy_string, push_str};
use crate::workspace::{
    Blocked, BlockedView, Plan, PlanView, State, StateView, components, within,
};

verus! {

broadcast use vstd::string::group_string_axioms;

/// Upper bound on the default concurrency. Cloning is network-bound, so more processes
/// than this buys little and costs file descriptors and goodwill with the remote.
pub const MAX_DEFAULT_CONCURRENCY: usize = 8;

/// Retries are for transient transport failures only, so the ceiling stays low.
pub const DEFAULT_MAX_RETRIES: u32 = 2;

/// How the coordinator should behave.
#[derive(Debug, Clone, Copy)]
pub struct Options {
    /// How many clones may run at once; at least one.
    pub concurrency: usize,
    pub max_retries: u32,
}

/// The default concurrency for a machine reporting `available` parallelism (four when it
/// reports none), clamped to `1..=MAX_DEFAULT_CONCURRENCY`.
pub open spec fn default_concurrency_of(available: Option<usize>) -> usize {
    let n = match available {
        Some(n) => n,
        None => 4,
    };
    if n < 1 {
        1
    } else if n > MAX_DEFAULT_CONCURRENCY {
        MAX_DEFAULT_CONCURRENCY
    } else {
        n
    }
}

/// Default concurrency: available parallelism, clamped to a sane range.
pub fn default_concurrency(available: Option<usize>) -> (n: usize)
    ensures
        n == default_concurrency_of(available),
        1 <= n <= MAX_DEFAULT_CONCURRENCY,
{
    let n = match available {
        Some(n) => n,
        None => 4,
    };
    if n < 1 {
        1
    } else if n > MAX_DEFAULT_CONCURRENCY {
        MAX_DEFAULT_CONCURRENCY
    } else {
        n
    }
}

impl Options {
    /// The default options on a machine reporting `available` parallelism.
    pub fn for_machine(available: Option<usize>) -> (o: Options)
        ensures
            o.concurrency == default_concurrency_of(available),
            o.max_retries == DEFAULT_MAX_RETRIES,
    {
        Options { concurrency: default_concurrency(available), max_retries: DEFAULT_MAX_RETRIES }
    }
}

/// One product's worth of work.
#[derive(Debug, Clone)]
pub struct Job {
    pub product_name: String,
    /// In manifest order. Blocked and already-present entries are included; they are
    /// reported without invoking git.
    pub plans: Vec<Plan>,
    /// Workspace root, re-checked before any cleanup removes anything.
    pub root: String,
}

/// A zero-length duration.
#[verifier::external_body]
fn zero_duration() -> Duration {
    Duration::ZERO
}

/// A copy of a refusal.
pub fn copy_blocked(b: &Blocked) -> (c: Blocked)
    ensures
        c@ == b@,
{
    match b {
        Blocked::DifferentRepository { origin, expected } => Blocked::DifferentRepository {
            origin: copy_string(origin),
            expected: copy_string(expected),
        },
        Blocked::UnverifiableRepository { origin } => Blocked::UnverifiableRepository {
            origin: copy_opt(origin),
        },
        Blocked::NotARepository => Blocked::NotARepository,
        Blocked::NotADirectory => Blocked::NotADirectory,
        Blocked::OutsideWorkspace { resolved } => Blocked::OutsideWorkspace {
            resolved: copy_string(resolved),
        },
        Blocked::Unreadable { reason } => Blocked::Unreadable { reason: copy_string(reason) },
        Blocked::UnusableUrl { reason } => Blocked::UnusableUrl { reason: copy_string(reason) },
    }
}

/// The entry of a plan that never reached git: no attempts, no time.
pub open spec fn immediate_entry(r: RepositoryReport, p: PlanView, o: Outcome) -> bool {
    r.name@ == p.name && r.display@ == p.display && r.outcome == o && r.attempts == 0
}

/// The report entry for a plan settled without git.
pub fn immediate(plan: &Plan, outcome: Outcome) -> (r: RepositoryReport)
    ensures
        immediate_entry(r, plan@, outcome),
{
    RepositoryReport {
        name: copy_string(&plan.name),
        display: copy_string(&plan.display),
        outcome,
        duration: zero_duration(),
        attempts: 0,
    }
}

/// Does a plan need a git process?
pub open spec fn needs_git(s: StateView) -> bool {
    s is Create || s is FillEmpty
}

/// The outcome of a plan that needs no git: already present, or blocked for the reason
/// preflight gave.
pub open spec fn settled_outcome(o: Outcome, s: StateView) -> bool {
    match s {
        StateView::AlreadyPresent => o is AlreadyPresent,
        StateView::Blocked(b) => o matches Outcome::Blocked(x) && x@ == b,
        _ => false,
    }
}

/// Settle, without git, every plan that needs none; the others are queued, in order.
/// Entries that need no git process are settled up front, so the concurrency budget is
/// spent only on real work.
pub fn settle_without_git(plans: &Vec<Plan>) -> (r: (Vec<Option<RepositoryReport>>, Vec<usize>))
    ensures
        r.0@.len() == plans@.len(),
        forall|i: int|
            0 <= i < plans@.len() ==> match #[trigger] r.0@[i] {
                None => needs_git(plans@[i].state@),
                Some(e) => !needs_git(plans@[i].state@) && immediate_entry(e, plans@[i]@, e.outcome)
                    && settled_outcome(e.outcome, plans@[i].state@),
            },
        forall|k: int|
            0 <= k < r.1@.len() ==> #[trigger] r.1@[k] < plans@.len() && needs_git(
                plans@[r.1@[k] as int].state@,
            ),
        forall|k: int, l: int| 0 <= k < l < r.1@.len() ==> #[trigger] r.1@[k] < #[trigger] r.1@[l],
        forall|i: int|
            0 <= i < plans@.len() && needs_git(#[trigger] plans@[i].state@) ==> r.1@.contains(
                i as usize,
            ),
{
    let mut slots: Vec<Option<RepositoryReport>> = Vec::new();
    let mut queued: Vec<usize> = Vec::new();
    for i in 0..plans.len()
        invariant
            slots@.len() == i,
            forall|j: int|
                0 <= j < i ==> match #[trigger] slots@[j] {
                    None => needs_git(plans@[j].state@),
                    Some(e) => !needs_git(plans@[j].state@) && immediate_entry(
                        e,
                        plans@[j]@,
                        e.outcome,
                    ) && settled_outcome(e.outcome, plans@[j].state@),
                },
            forall|k: int| 0 <= k < queued@.len() ==> #[trigger] queued@[k] < i && needs_git(
                plans@[queued@[k] as int].state@,
            ),
            forall|k: int, l: int| 0 <= k < l < queued@.len() ==> #[trigger] queued@[k] < #[trigger] queued@[l],
            forall|j: int| 0 <= j < i && needs_git(#[trigger] plans@[j].state@) ==> queued@.contains(
                j as usize,
            ),
    {
        let plan = &plans[i];
        match &plan.state {
            State::AlreadyPresent => {
                slots.push(Some(immediate(plan, Outcome::AlreadyPresent)));
            },
            State::Blocked(b) => {
                slots.push(Some(immediate(plan, Outcome::Blocked(copy_blocked(b)))));
            },
            State::Create | State::FillEmpty => {
                slots.push(None);
                let ghost before = queued@;
                queued.push(i);
                assert forall|j: int| 0 <= j < i + 1 && needs_git(#[trigger] plans@[j].state@) implies queued@.contains(
                    j as usize,
                ) by {
                    if j < i {
                        assert(before.contains(j as usize));
                        let w = choose|w: int| 0 <= w < before.len() && before[w] == j as usize;
                        assert(queued@[w] == j as usize);
                    } else {
                        assert(queued@[queued@.len() - 1] == i);
                    }
                }
            },
        }
    }
    (slots, queued)
}

/// The entry of a plan cancelled after git was invoked `attempts` times for it: 0 when it
/// never started, the invocations made so far when its clone was interrupted.
pub open spec fn cancelled_entry(r: RepositoryReport, p: PlanView, attempts: u32) -> bool {
    r.name@ == p.name && r.display@ == p.display && r.outcome is Cancelled && r.attempts
        == attempts
}

/// The report entry for a plan that never settled, after `attempts` invocations of git.
pub fn cancelled(plan: &Plan, attempts: u32) -> (r: RepositoryReport)
    ensures
        cancelled_entry(r, plan@, attempts),
{
    RepositoryReport {
        name: copy_string(&plan.name),
        display: copy_string(&plan.display),
        outcome: Outcome::Cancelled,
        duration: zero_duration(),
        attempts,
    }
}

/// The entry of a plan in the final report: the one it settled with, or cancelled when it
/// never settled -- aborted mid-clone or never started -- with the invocations of git made
/// for it.
pub open spec fn final_entry(
    r: RepositoryReport,
    slot: Option<RepositoryReport>,
    p: PlanView,
    attempts: u32,
) -> bool {
    match slot {
        Some(e) => r == e,
        None => cancelled_entry(r, p, attempts),
    }
}

/// Assemble the report: one entry per plan, in plan order, every plan that never settled
/// reported as cancelled with `attempts[i]`, the number of times git was invoked for it.
pub fn assemble_report(
    product_name: String,
    plans: &Vec<Plan>,
    slots: Vec<Option<RepositoryReport>>,
    attempts: &Vec<u32>,
    cancelled: bool,
    elapsed: Duration,
) -> (report: Report)
    requires
        slots@.len() == plans@.len(),
        attempts@.len() == plans@.len(),
    ensures
        report.product_name@ == product_name@,
        report.cancelled == cancelled,
        report.elapsed == elapsed,
        report.repositories@.len() == plans@.len(),
        forall|i: int|
            0 <= i < plans@.len() ==> final_entry(
                #[trigger] report.repositories@[i],
                slots@[i],
                plans@[i]@,
                attempts@[i],
            ),
{
    let ghost all = slots@;
    let mut repositories: Vec<RepositoryReport> = Vec::new();
    let mut i: usize = 0;
    let n = plans.len();
    for slot in it: slots
        invariant
            n == plans@.len(),
            n == attempts@.len(),
            all.len() == plans@.len(),
            i == it.index(),
            it.seq() == all,
            repositories@.len() == i,
            forall|j: int|
                0 <= j < i ==> final_entry(
                    #[trigger] repositories@[j],
                    all[j],
                    plans@[j]@,
                    attempts@[j],
                ),
    {
        assert(slot == all[i as int]);
        assert(i < n);
        match slot {
            Some(entry) => repositories.push(entry),
            None => repositories.push(self::cancelled(&plans[i], attempts[i])),
        }
        i = i + 1;
    }
    Report { product_name, repositories, cancelled, elapsed }
}

pub open spec fn report_names(entries: Seq<RepositoryReport>) -> Seq<Seq<char>> {
    entries.map_values(|r: RepositoryReport| r.name@)
}

pub open spec fn plan_names(plans: Seq<PlanView>) -> Seq<Seq<char>> {
    plans.map_values(|p: PlanView| p.name)
}

/// Law: every plan appears in the report exactly once and in plan order -- the report's
/// names are the plans' names -- provided each entry that settled belongs to its plan.
pub proof fn law_every_plan_reported_once_in_order(
    plans: Seq<PlanView>,
    slots: Seq<Option<RepositoryReport>>,
    attempts: Seq<u32>,
    entries: Seq<RepositoryReport>,
)
    requires
        slots.len() == plans.len(),
        attempts.len() == plans.len(),
        entries.len() == plans.len(),
        forall|i: int| 0 <= i < plans.len() ==> (#[trigger] slots[i] matches Some(e) ==> e.name@ == plans[i].name),
        forall|i: int|
            0 <= i < plans.len() ==> final_entry(#[trigger] entries[i], slots[i], plans[i], attempts[i]),
    ensures
        report_names(entries) == plan_names(plans),
{
    assert forall|i: int| 0 <= i < plans.len() implies #[trigger] report_names(entries)[i]
        == plan_names(plans)[i] by {
        assert(final_entry(entries[i], slots[i], plans[i], attempts[i]));
    }
    assert(report_names(entries) =~= plan_names(plans));
}

/// The request git is given for a plan.
pub fn clone_request(plan: &Plan) -> (r: CloneRequest)
    ensures
        r.name@ == plan.name@,
        r.url@ == plan.url@,
        r.destination@ == plan.destination@,
        crate::text::opt_view(r.git_ref) == crate::text::opt_view(plan.git_ref),
{
    CloneRequest {
        name: copy_string(&plan.name),
        url: copy_string(&plan.url),
        destination: copy_string(&plan.destination),
        git_ref: copy_opt(&plan.git_ref),
    }
}

/// Is another attempt worth making after `attempts` attempts ended in `failure`? Only a
/// transient failure is retried, and never more than `max_retries` times.
pub fn should_retry(failure: &Failure, attempts: u32, max_retries: u32) -> (b: bool)
    ensures
        b == (failure.kind == FailureKind::Transient && attempts <= max_retries),
{
    failure.retryable() && attempts <= max_retries
}

/// Law: retries stop at the ceiling -- after `max_retries + 1` attempts, no failure is
/// retried -- and a failure that retrying cannot fix is attempted once.
pub proof fn law_retries_are_bounded(failure: Failure, attempts: u32, max_retries: u32)
    ensures
        attempts > max_retries ==> !(failure.kind == FailureKind::Transient && attempts
            <= max_retries),
        failure.kind != FailureKind::Transient ==> !(failure.kind == FailureKind::Transient
            && attempts <= max_retries),
{
}

/// What follows one invocation of git for a clone.
#[derive(Debug)]
pub enum AttemptStep {
    /// Wait, then invoke git again; `attempts` invocations have been made.
    Retry { attempts: u32 },
    /// The clone is over: its outcome after `attempts` invocations, and whether a partial
    /// clone is to be removed (when this run owns the destination).
    Stop { attempts: u32, outcome: Outcome, remove_partial: bool },
}

/// What follows the `attempts`-th invocation of git, which gave `result`.
pub open spec fn attempt_step(attempts: u32, result: Result<(), Failure>, max_retries: u32) -> AttemptStep {
    match result {
        Ok(()) => AttemptStep::Stop { attempts, outcome: Outcome::Cloned, remove_partial: false },
        Err(f) => if f.kind == FailureKind::Transient && attempts <= max_retries {
            AttemptStep::Retry { attempts }
        } else {
            AttemptStep::Stop { attempts, outcome: Outcome::Failed(f), remove_partial: true }
        },
    }
}

/// Decide what follows the `attempts`-th invocation of git, which gave `result`: a success
/// is cloned; a failure is retried while [`should_retry`] allows, and otherwise ends the
/// clone as failed, its partial output to be cleaned up.
pub fn after_attempt(attempts: u32, result: Result<(), Failure>, max_retries: u32) -> (s:
    AttemptStep)
    requires
        attempts >= 1,
    ensures
        s == attempt_step(attempts, result, max_retries),
{
    match result {
        Ok(()) => AttemptStep::Stop { attempts, outcome: Outcome::Cloned, remove_partial: false },
        Err(failure) => {
            if should_retry(&failure, attempts, max_retries) {
                AttemptStep::Retry { attempts }
            } else {
                AttemptStep::Stop { attempts, outcome: Outcome::Failed(failure), remove_partial: true }
            }
        },
    }
}

/// Does the `j`-th invocation of git, which gave `r`, end the clone?
pub open spec fn stops_at(r: Result<(), Failure>, j: int, max_retries: u32) -> bool {
    match r {
        Ok(()) => true,
        Err(f) => !(f.kind == FailureKind::Transient && j <= max_retries),
    }
}

/// Where a clone ends when its invocations of git from the `j`-th on give `results[j - 1]`,
/// `results[j]`, ...: the number of invocations made and the outcome; none when the
/// results run out first.
pub open spec fn retry_run(results: Seq<Result<(), Failure>>, max_retries: u32, j: int) -> Option<
    (int, Outcome),
>
    decreases results.len() + 1 - j,
{
    if j < 1 || j > results.len() {
        None
    } else if stops_at(results[j - 1], j, max_retries) {
        Some(
            (
                j,
                match results[j - 1] {
                    Ok(()) => Outcome::Cloned,
                    Err(f) => Outcome::Failed(f),
                },
            ),
        )
    } else {
        retry_run(results, max_retries, j + 1)
    }
}

proof fn lemma_retry_run(results: Seq<Result<(), Failure>>, max_retries: u32, j: int)
    requires
        1 <= j,
        results.len() <= u32::MAX,
    ensures
        retry_run(results, max_retries, j) matches Some((n, o)) ==> {
            &&& j <= n <= results.len()
            &&& stops_at(results[n - 1], n, max_retries)
            &&& forall|i: int| j <= i < n ==> !stops_at(#[trigger] results[i - 1], i, max_retries)
            &&& attempt_step(n as u32, results[n - 1], max_retries) == (AttemptStep::Stop {
                attempts: n as u32,
                outcome: o,
                remove_partial: results[n - 1] is Err,
            })
        },
        j <= max_retries + 1 <= results.len() ==> retry_run(results, max_retries, j) is Some,
    decreases results.len() + 1 - j,
{
    if j <= results.len() && !stops_at(results[j - 1], j, max_retries) {
        lemma_retry_run(results, max_retries, j + 1);
    }
}

/// Law: the retry loop. Invoking git until [`after_attempt`] says stop ends at the first
/// invocation that succeeds, fails for a reason retrying cannot fix, or fails after
/// `max_retries` retries: the clone reports exactly that many invocations, and is cloned
/// when that invocation succeeded, failed with its failure otherwise. Every earlier
/// invocation was answered with a retry, and `max_retries + 1` invocations always suffice.
pub proof fn law_retry_loop(results: Seq<Result<(), Failure>>, max_retries: u32)
    requires
        results.len() <= u32::MAX,
    ensures
        retry_run(results, max_retries, 1) matches Some((n, o)) ==> {
            &&& 1 <= n <= results.len()
            &&& forall|i: int|
                1 <= i < n ==> attempt_step(i as u32, #[trigger] results[i - 1], max_retries) == (
                AttemptStep::Retry { attempts: i as u32 })
            &&& attempt_step(n as u32, results[n - 1], max_retries) == (AttemptStep::Stop {
                attempts: n as u32,
                outcome: o,
                remove_partial: results[n - 1] is Err,
            })
            &&& (results[n - 1] is Ok ==> o == Outcome::Cloned)
            &&& (results[n - 1] matches Err(f) ==> o == Outcome::Failed(f))
        },
        max_retries + 1 <= results.len() ==> retry_run(results, max_retries, 1) is Some,
{
    lemma_retry_run(results, max_retries, 1);
    if let Some((n, o)) = retry_run(results, max_retries, 1) {
        assert forall|i: int| 1 <= i < n implies attempt_step(
            i as u32,
            #[trigger] results[i - 1],
            max_retries,
        ) == (AttemptStep::Retry { attempts: i as u32 }) by {
            assert(!stops_at(results[i - 1], i, max_retries));
        }
    }
}

/// How a clone that ran to its end can finish: cloned, failed, or blocked because the
/// parent directory of its destination could not be created ([`parent_unavailable`]).
pub open spec fn finished_outcome(o: Outcome) -> bool {
    ||| o is Cloned
    ||| o is Failed
    ||| (o matches Outcome::Blocked(b) && b@ is Unreadable)
}

/// Law: a clone that runs to its end, without a cancellation, finishes cloned or failed --
/// never cancelled.
pub proof fn law_retry_loop_finishes(results: Seq<Result<(), Failure>>, max_retries: u32)
    ensures
        retry_run(results, max_retries, 1) matches Some((n, o)) ==> finished_outcome(o) && !(
        o is Cancelled),
{
    lemma_retry_finishes(results, max_retries, 1);
}

proof fn lemma_retry_finishes(results: Seq<Result<(), Failure>>, max_retries: u32, j: int)
    ensures
        retry_run(results, max_retries, j) matches Some((n, o)) ==> o is Cloned || o is Failed,
    decreases results.len() + 1 - j,
{
    if 1 <= j <= results.len() && !stops_at(results[j - 1], j, max_retries) {
        lemma_retry_finishes(results, max_retries, j + 1);
    }
}

/// Law: a run that no `Ctrl-C` interrupts cancels nothing. When every plan settled --
/// those needing no git as [`settle_without_git`] settles them, the others by a clone that
/// ran to its end -- the report [`assemble_report`] builds holds exactly those entries:
/// already-present and blocked plans with no invocation of git, the others cloned, failed
/// or blocked by their parent directory, none cancelled.
pub proof fn law_uninterrupted_run_cancels_nothing(
    plans: Seq<PlanView>,
    slots: Seq<Option<RepositoryReport>>,
    attempts: Seq<u32>,
    entries: Seq<RepositoryReport>,
)
    requires
        slots.len() == plans.len(),
        attempts.len() == plans.len(),
        entries.len() == plans.len(),
        forall|i: int| 0 <= i < plans.len() ==> #[trigger] slots[i] is Some,
        forall|i: int|
            0 <= i < plans.len() && !needs_git(plans[i].state) ==> immediate_entry(
                #[trigger] slots[i]->0,
                plans[i],
                slots[i]->0.outcome,
            ) && settled_outcome(slots[i]->0.outcome, plans[i].state),
        forall|i: int|
            0 <= i < plans.len() && needs_git(plans[i].state) ==> finished_outcome(
                #[trigger] slots[i]->0.outcome,
            ),
        forall|i: int|
            0 <= i < plans.len() ==> final_entry(#[trigger] entries[i], slots[i], plans[i], attempts[i]),
    ensures
        forall|i: int|
            0 <= i < plans.len() ==> {
                &&& #[trigger] entries[i] == slots[i]->0
                &&& !(entries[i].outcome is Cancelled)
                &&& needs_git(plans[i].state) ==> finished_outcome(entries[i].outcome)
                &&& !needs_git(plans[i].state) ==> settled_outcome(entries[i].outcome, plans[i].state)
                    && entries[i].attempts == 0
            },
{
    assert forall|i: int| 0 <= i < plans.len() implies {
        &&& #[trigger] entries[i] == slots[i]->0
        &&& !(entries[i].outcome is Cancelled)
        &&& needs_git(plans[i].state) ==> finished_outcome(entries[i].outcome)
        &&& !needs_git(plans[i].state) ==> settled_outcome(entries[i].outcome, plans[i].state)
            && entries[i].attempts == 0
    } by {
        assert(slots[i] is Some);
        assert(final_entry(entries[i], slots[i], plans[i], attempts[i]));
        if needs_git(plans[i].state) {
            assert(finished_outcome(slots[i]->0.outcome));
        } else {
            assert(settled_outcome(slots[i]->0.outcome, plans[i].state));
        }
    }
}

/// The refusal recorded when the parent directory of a destination cannot be created.
pub fn parent_unavailable(error: &str) -> (b: Blocked)
    ensures
        b@ == (BlockedView::Unreadable {
            reason: "cannot create the parent directory: "@ + error@,
        }),
{
    let mut reason = String::from_str("cannot create the parent directory: ");
    push_str(&mut reason, error);
    Blocked::Unreadable { reason }
}

/// May the destination of a plan be removed after its clone failed or was interrupted?
///
/// Deliberately narrow. Ownership is established by preflight -- the destination did not
/// exist when the run started, and [`State::Create`] records that -- not by inspecting the
/// contents afterwards, because git creates `.git` early enough that a half-finished clone
/// looks like a repository. Containment is re-asserted immediately before a destructive
/// call: the destination must lie inside the root and not be the root itself.
pub open spec fn removable(state: StateView, destination: Seq<char>, root: Seq<char>) -> bool {
    &&& state is Create
    &&& within(destination, root)
    &&& components(destination) != components(root)
}

/// Whether a partial clone may be removed; the caller still checks that it exists.
pub fn may_remove_partial_clone(plan: &Plan, root: &str) -> (b: bool)
    ensures
        b == removable(plan.state@, plan.destination@, root@),
{
    if !plan.state.owns_destination() {
        return false;
    }
    if !crate::workspace::is_within(plan.destination.as_str(), root) {
        return false;
    }
    let c = crate::workspace::path_components(plan.destination.as_str());
    let r = crate::workspace::path_components(root);
    if c.len() != r.len() {
        assert(components(plan.destination@).len() != components(root@).len());
        return true;
    }
    assert(components(plan.destination@).take(components(root@).len() as int) == components(
        root@,
    ));
    assert(components(plan.destination@).take(components(root@).len() as int) =~= components(
        plan.destination@,
    ));
    false
}

/// Law: cleanup never removes a directory that already existed, the workspace root, or
/// anything outside it.
pub proof fn law_cleanup_only_touches_what_this_run_created(
    state: StateView,
    destination: Seq<char>,
    root: Seq<char>,
)
    requires
        removable(state, destination, root),
    ensures
        !(state is FillEmpty || state is AlreadyPresent || state is Blocked),
        within(destination, root),
        components(destination) != components(root),
{
}

// ---------------------------------------------------------------------------------------
// Backoff
// ---------------------------------------------------------------------------------------

pub open spec fn pow3(k: nat) -> nat
    decreases k,
{
    if k == 0 {
        1
    } else {
        3 * pow3((k - 1) as nat)
    }
}

/// The base delay before retry `attempt`, in milliseconds: 500 ms, then three times as
/// long for each further attempt, saturating at `u64::MAX`.
pub open spec fn backoff_base(attempt: u32) -> nat {
    let k: nat = if attempt == 0 {
        0
    } else {
        (attempt - 1) as nat
    };
    let p: nat = if pow3(k) > u64::MAX {
        u64::MAX as nat
    } else {
        pow3(k)
    };
    if 500 * p > u64::MAX {
        u64::MAX as nat
    } else {
        500 * p
    }
}

/// The jitter band: a fifth of the base either way.
pub open spec fn backoff_spread(attempt: u32) -> nat {
    backoff_base(attempt) / 5
}

/// The delay before retry `attempt`, jittered by `nanos` (the sub-second part of the clock)
/// within `base - spread ..= base + spread`.
pub open spec fn backoff_millis(attempt: u32, nanos: u64) -> int {
    let base = backoff_base(attempt);
    let spread = backoff_spread(attempt);
    if spread == 0 {
        base as int
    } else {
        base + (nanos as nat) % (spread * 2 + 1) - spread
    }
}

/// Does the delay fit the clock's range? Only a retry count far beyond any ceiling in use
/// makes it overflow.
pub open spec fn backoff_fits(attempt: u32, nanos: u64) -> bool {
    backoff_spread(attempt) == 0 || backoff_base(attempt) + (nanos as nat) % (
    backoff_spread(attempt) * 2 + 1) <= u64::MAX
}

/// Backoff before retrying a transient failure, in milliseconds: roughly 500 then 1500,
/// jittered by the sub-second part of the clock, which the caller reads. The jitter only
/// needs to stop several repositories retrying in lockstep.
pub fn backoff(attempt: u32, nanos: u64) -> (millis: u64)
    requires
        backoff_fits(attempt, nanos),
    ensures
        millis == backoff_millis(attempt, nanos),
{
    let k: u32 = if attempt == 0 {
        0
    } else {
        attempt - 1
    };
    let mut p: u64 = 1;
    let mut j: u32 = 0;
    while j < k
        invariant
            j <= k,
            k == (if attempt == 0 {
                0
            } else {
                attempt - 1
            }),
            p == (if pow3(j as nat) > u64::MAX {
                u64::MAX as nat
            } else {
                pow3(j as nat)
            }),
        decreases k - j,
    {
        if p > u64::MAX / 3 {
            p = u64::MAX;
        } else {
            p = p * 3;
        }
        j = j + 1;
    }
    let base: u64 = if p > u64::MAX / 500 {
        u64::MAX
    } else {
        500 * p
    };
    assert(base == backoff_base(attempt)) by (nonlinear_arith)
        requires
            p == (if pow3(k as nat) > u64::MAX {
                u64::MAX as nat
            } else {
                pow3(k as nat)
            }),
            base == (if p > u64::MAX / 500 {
                u64::MAX as int
            } else {
                500 * p
            }),
            k == (if attempt == 0 {
                0
            } else {
                attempt - 1
            }),
    ;
    let spread = base / 5;
    if spread == 0 {
        return base;
    }
    let offset = nanos % (spread * 2 + 1);
    base + offset - spread
}

/// Law: the jittered delay stays within a fifth of its base either way.
pub proof fn law_backoff_stays_in_its_band(attempt: u32, nanos: u64)
    ensures
        backoff_base(attempt) - backoff_spread(attempt) <= backoff_millis(attempt, nanos)
            <= backoff_base(attempt) + backoff_spread(attempt),
{
}

/// Law: the delay starts at 500 ms before the first retry and 1500 ms before the second,
/// each within a fifth of its base either way.
pub proof fn law_backoff_starts_at_half_a_second()
    ensures
        backoff_base(1) == 500,
        backoff_base(2) == 1500,
        backoff_spread(1) == 100,
        backoff_spread(2) == 300,
{
    assert(pow3(0) == 1);
    assert(pow3(1) == 3) by {
        assert(pow3(0) == 1);
    }
}

proof fn lemma_pow3_positive(n: nat)
    ensures
        pow3(n) >= 1,
    decreases n,
{
    if n > 0 {
        lemma_pow3_positive((n - 1) as nat);
    }
}

proof fn lemma_pow3_monotone(i: nat, j: nat)
    requires
        i <= j,
    ensures
        1 <= pow3(i) <= pow3(j),
    decreases j,
{
    lemma_pow3_positive(i);
    if i < j {
        lemma_pow3_monotone(i, (j - 1) as nat);
    }
}

proof fn lemma_pow3_34()
    ensures
        pow3(34) == 16677181699666569,
{
    reveal_with_fuel(pow3, 35);
}

/// Law: the delay grows with every retry -- for attempts 1 to 34, whatever the clock reads
/// at each, the delay before the next attempt is longer than the delay before this one.
pub proof fn law_backoff_grows(attempt: u32, earlier: u64, later: u64)
    requires
        1 <= attempt <= 34,
    ensures
        backoff_millis((attempt + 1) as u32, later) > backoff_millis(attempt, earlier),
{
    let k = (attempt - 1) as nat;
    lemma_pow3_34();
    lemma_pow3_monotone(k + 1, 34);
    lemma_pow3_monotone(k, k + 1);
    assert(pow3(k + 1) == 3 * pow3(k));
    let next = (attempt + 1) as u32;
    assert(backoff_base(attempt) == 500 * pow3(k));
    assert(backoff_base(next) == 1500 * pow3(k));
    law_backoff_stays_in_its_band(attempt, earlier);
    law_backoff_stays_in_its_band(next, later);
}

} // verus!
