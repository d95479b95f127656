//! What happened, per repository and overall.
//!
//! One failed repository never hides the others: every repository gets an entry, and the
//! summary is built from all of them.
use vstd::prelude::*;

use std::time::Duration;

use crate::git::Failure;
use crate::workspace::Blocked;

verus! {

/// The result for one repository.
#[derive(Debug, Clone)]
pub enum Outcome {
    /// Cloned by this run.
    Cloned,
    /// Already on disk with the expected `origin`; nothing was done.
    AlreadyPresent,
    /// git ran and failed.
    Failed(Failure),
    /// Never attempted: workspace preflight refused the destination.
    Blocked(Blocked),
    /// Never attempted, or interrupted, because the run was cancelled.
    Cancelled,
}

/// Did the repository end up in the state the developer asked for?
pub open spec fn success(o: Outcome) -> bool {
    o is Cloned || o is AlreadyPresent
}

/// Did git fail, or preflight refuse the destination?
pub open spec fn failure(o: Outcome) -> bool {
    o is Failed || o is Blocked
}

/// The label of an outcome in the summary line.
pub open spec fn outcome_label(o: Outcome) -> Seq<char> {
    match o {
        Outcome::Cloned => "cloned"@,
        Outcome::AlreadyPresent => "already present"@,
        Outcome::Failed(_) => "failed"@,
        Outcome::Blocked(_) => "blocked"@,
        Outcome::Cancelled => "cancelled"@,
    }
}

impl Outcome {
    /// Did this repository end up in the state the developer asked for?
    pub fn is_success(&self) -> (b: bool)
        ensures
            b == success(*self),
    {
        match self {
            Outcome::Cloned | Outcome::AlreadyPresent => true,
            _ => false,
        }
    }

    pub fn is_failure(&self) -> (b: bool)
        ensures
            b == failure(*self),
    {
        match self {
            Outcome::Failed(_) | Outcome::Blocked(_) => true,
            _ => false,
        }
    }

    /// A short label for the summary line.
    pub fn label(&self) -> (l: &'static str)
        ensures
            l@ == outcome_label(*self),
    {
        match self {
            Outcome::Cloned => "cloned",
            Outcome::AlreadyPresent => "already present",
            Outcome::Failed(_) => "failed",
            Outcome::Blocked(_) => "blocked",
            Outcome::Cancelled => "cancelled",
        }
    }
}

/// One repository's entry in the report.
#[derive(Debug)]
pub struct RepositoryReport {
    pub name: String,
    /// Destination relative to the workspace root.
    pub display: String,
    pub outcome: Outcome,
    pub duration: Duration,
    /// How many times git was invoked. 0 when it never was.
    pub attempts: u32,
}

/// The whole run.
#[derive(Debug)]
pub struct Report {
    pub product_name: String,
    /// In manifest order, always one entry per repository in the product.
    pub repositories: Vec<RepositoryReport>,
    /// The run was interrupted by Ctrl-C.
    pub cancelled: bool,
    pub elapsed: Duration,
}

/// The groups of outcomes the summary counts.
#[derive(Debug, Clone, Copy, PartialEq, Eq, Structural)]
pub enum Tally {
    /// Cloned or already present.
    Succeeded,
    /// Failed or blocked.
    Failed,
    Cloned,
    AlreadyPresent,
    Cancelled,
}

/// Does an outcome belong to a group?
pub open spec fn tallied(t: Tally, o: Outcome) -> bool {
    match t {
        Tally::Succeeded => success(o),
        Tally::Failed => failure(o),
        Tally::Cloned => o is Cloned,
        Tally::AlreadyPresent => o is AlreadyPresent,
        Tally::Cancelled => o is Cancelled,
    }
}

impl Tally {
    fn includes(self, o: &Outcome) -> (b: bool)
        ensures
            b == tallied(self, *o),
    {
        match self {
            Tally::Succeeded => o.is_success(),
            Tally::Failed => o.is_failure(),
            Tally::Cloned => matches!(o, Outcome::Cloned),
            Tally::AlreadyPresent => matches!(o, Outcome::AlreadyPresent),
            Tally::Cancelled => matches!(o, Outcome::Cancelled),
        }
    }
}

/// How many entries have an outcome in group `t`.
pub open spec fn count(rs: Seq<RepositoryReport>, t: Tally) -> nat
    decreases rs.len(),
{
    if rs.len() == 0 {
        0
    } else {
        count(rs.drop_last(), t) + if tallied(t, rs.last().outcome) {
            1nat
        } else {
            0nat
        }
    }
}

/// Every repository reached the desired state, and the run was not interrupted.
pub open spec fn complete(cancelled: bool, rs: Seq<RepositoryReport>) -> bool {
    !cancelled && count(rs, Tally::Failed) == 0 && count(rs, Tally::Cancelled) == 0
}

/// The entries that did not succeed, in order.
pub open spec fn problems_of(rs: Seq<RepositoryReport>) -> Seq<RepositoryReport>
    decreases rs.len(),
{
    if rs.len() == 0 {
        rs
    } else if success(rs.last().outcome) {
        problems_of(rs.drop_last())
    } else {
        problems_of(rs.drop_last()).push(rs.last())
    }
}

impl Report {
    fn count_where(&self, t: Tally) -> (n: usize)
        ensures
            n == count(self.repositories@, t),
    {
        let mut n: usize = 0;
        for i in 0..self.repositories.len()
            invariant
                n == count(self.repositories@.take(i as int), t),
                n <= i,
        {
            assert(self.repositories@.take(i + 1).drop_last() == self.repositories@.take(i as int));
            if t.includes(&self.repositories[i].outcome) {
                n = n + 1;
            }
        }
        assert(self.repositories@.take(self.repositories@.len() as int) == self.repositories@);
        n
    }

    pub fn total(&self) -> (n: usize)
        ensures
            n == self.repositories@.len(),
    {
        self.repositories.len()
    }

    pub fn cloned(&self) -> (n: usize)
        ensures
            n == count(self.repositories@, Tally::Cloned),
    {
        self.count_where(Tally::Cloned)
    }

    pub fn already_present(&self) -> (n: usize)
        ensures
            n == count(self.repositories@, Tally::AlreadyPresent),
    {
        self.count_where(Tally::AlreadyPresent)
    }

    /// Cloned plus already present: repositories that are now where they should be.
    pub fn succeeded(&self) -> (n: usize)
        ensures
            n == count(self.repositories@, Tally::Succeeded),
    {
        self.count_where(Tally::Succeeded)
    }

    /// Failed plus blocked.
    pub fn failed(&self) -> (n: usize)
        ensures
            n == count(self.repositories@, Tally::Failed),
    {
        self.count_where(Tally::Failed)
    }

    pub fn cancelled_repositories(&self) -> (n: usize)
        ensures
            n == count(self.repositories@, Tally::Cancelled),
    {
        self.count_where(Tally::Cancelled)
    }

    /// Did every repository reach the desired state? Drives the process exit code.
    pub fn is_complete(&self) -> (b: bool)
        ensures
            b == complete(self.cancelled, self.repositories@),
    {
        !self.cancelled && self.failed() == 0 && self.cancelled_repositories() == 0
    }

    /// Repositories that did not succeed, in manifest order.
    pub fn problems(&self) -> (v: Vec<&RepositoryReport>)
        ensures
            v@.map_values(|r: &RepositoryReport| *r) == problems_of(self.repositories@),
    {
        let ghost rs = self.repositories@;
        let mut v: Vec<&RepositoryReport> = Vec::new();
        for i in 0..self.repositories.len()
            invariant
                rs == self.repositories@,
                v@.map_values(|r: &RepositoryReport| *r) == problems_of(rs.take(i as int)),
        {
            assert(rs.take(i + 1).drop_last() == rs.take(i as int));
            let entry = &self.repositories[i];
            if !entry.outcome.is_success() {
                v.push(entry);
                assert(v@.map_values(|r: &RepositoryReport| *r) =~= problems_of(rs.take(i as int)).push(
                    *entry,
                ));
            }
        }
        assert(rs.take(rs.len() as int) == rs);
        v
    }
}


/// Law: every repository is counted exactly once as succeeded, failed or cancelled.
pub proof fn law_outcomes_partition(rs: Seq<RepositoryReport>)
    ensures
        count(rs, Tally::Succeeded) + count(rs, Tally::Failed) + count(rs, Tally::Cancelled)
            == rs.len(),
    decreases rs.len(),
{
    if rs.len() > 0 {
        law_outcomes_partition(rs.drop_last());
    }
}

/// Law: the succeeded count is the cloned count plus the already-present count.
pub proof fn law_succeeded_is_cloned_plus_present(rs: Seq<RepositoryReport>)
    ensures
        count(rs, Tally::Succeeded) == count(rs, Tally::Cloned) + count(rs, Tally::AlreadyPresent),
    decreases rs.len(),
{
    if rs.len() > 0 {
        law_succeeded_is_cloned_plus_present(rs.drop_last());
    }
}

proof fn lemma_all_succeeded(rs: Seq<RepositoryReport>)
    ensures
        count(rs, Tally::Succeeded) <= rs.len(),
        count(rs, Tally::Succeeded) == rs.len() <==> forall|i: int|
            0 <= i < rs.len() ==> success(#[trigger] rs[i].outcome),
    decreases rs.len(),
{
    if rs.len() > 0 {
        lemma_all_succeeded(rs.drop_last());
        if count(rs, Tally::Succeeded) == rs.len() {
            assert forall|i: int| 0 <= i < rs.len() implies success(#[trigger] rs[i].outcome) by {
                if i < rs.len() - 1 {
                    assert(rs[i] == rs.drop_last()[i]);
                }
            }
        }
        if forall|i: int| 0 <= i < rs.len() ==> success(#[trigger] rs[i].outcome) {
            assert forall|i: int| 0 <= i < rs.drop_last().len() implies success(
                #[trigger] rs.drop_last()[i].outcome,
            ) by {
                assert(rs[i] == rs.drop_last()[i]);
            }
            assert(success(rs[rs.len() - 1].outcome));
        }
    }
}

/// Law: a run is complete exactly when it was not cancelled and every repository reached
/// the desired state -- cancellation is never reported as complete, and already-present
/// counts as success.
pub proof fn law_complete_iff_all_succeeded(cancelled: bool, rs: Seq<RepositoryReport>)
    ensures
        complete(cancelled, rs) <==> (!cancelled && forall|i: int|
            0 <= i < rs.len() ==> success(#[trigger] rs[i].outcome)),
{
    law_outcomes_partition(rs);
    lemma_all_succeeded(rs);
}

/// Law: the problems are exactly the repositories that did not succeed, in order.
pub proof fn law_problems_are_the_unsuccessful(rs: Seq<RepositoryReport>)
    ensures
        problems_of(rs).len() + count(rs, Tally::Succeeded) == rs.len(),
        forall|k: int| 0 <= k < problems_of(rs).len() ==> !success(#[trigger] problems_of(rs)[k].outcome),
    decreases rs.len(),
{
    if rs.len() > 0 {
        law_problems_are_the_unsuccessful(rs.drop_last());
        let before = problems_of(rs.drop_last());
        assert forall|k: int| 0 <= k < problems_of(rs).len() implies !success(
            #[trigger] problems_of(rs)[k].outcome,
        ) by {
            if k < before.len() {
                assert(problems_of(rs)[k] == before[k]);
            }
        }
    }
}

} // verus!
