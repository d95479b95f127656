//! The text of the in-place progress display: one row per repository, in manifest order.
//!
//! Drawing the rows is the terminal layer's work; what each row says is decided here.
use vstd::prelude::*;

use crate::clone::report::{Outcome, RepositoryReport};
use crate::git::classify::summary_text;
use crate::text::{decimal, push_decimal, push_str};

verus! {

broadcast use vstd::string::group_string_axioms;

/// The line above the rows.
pub fn header_line(product_name: &str, repositories: usize) -> (s: String)
    ensures
        s@ == product_name@ + " — "@ + decimal(repositories as nat) + " repositories"@,
{
    let mut s = String::new();
    push_str(&mut s, product_name);
    push_str(&mut s, " — ");
    push_decimal(&mut s, repositories as u64);
    push_str(&mut s, " repositories");
    s
}

/// A row's message while a transient failure waits to be retried.
pub fn retrying_message(attempt: u32, reason: &str) -> (s: String)
    requires
        attempt < u32::MAX,
    ensures
        s@ == reason@ + " retrying (attempt "@ + decimal((attempt + 1) as nat) + ")"@,
{
    let mut s = String::new();
    push_str(&mut s, reason);
    push_str(&mut s, " retrying (attempt ");
    push_decimal(&mut s, (attempt + 1) as u64);
    push_str(&mut s, ")");
    s
}

/// What a finished row says: a symbol and a detail. A clone names its duration, shown as
/// `took`, and how many attempts it needed when that was more than one -- a silent retry
/// would hide a flaky remote.
pub open spec fn finished_text(entry: RepositoryReport, took: Seq<char>) -> Seq<char> {
    match entry.outcome {
        Outcome::Cloned => "✓ cloned in "@ + took + if entry.attempts > 1 {
            " after "@ + decimal(entry.attempts as nat) + " attempts"@
        } else {
            Seq::<char>::empty()
        },
        Outcome::AlreadyPresent => "· already present"@,
        Outcome::Failed(f) => "✗ "@ + summary_text(f.kind),
        Outcome::Blocked(_) => "✗ blocked"@,
        Outcome::Cancelled => "· cancelled"@,
    }
}

/// The message of a finished row.
pub fn finished_row(entry: &RepositoryReport, took: &str) -> (s: String)
    ensures
        s@ == finished_text(*entry, took@),
{
    match &entry.outcome {
        Outcome::Cloned => {
            let mut s = String::from_str("✓ cloned in ");
            push_str(&mut s, took);
            if entry.attempts > 1 {
                push_str(&mut s, " after ");
                push_decimal(&mut s, entry.attempts as u64);
                push_str(&mut s, " attempts");
            }
            s
        },
        Outcome::AlreadyPresent => String::from_str("· already present"),
        Outcome::Failed(f) => {
            let mut s = String::from_str("✗ ");
            push_str(&mut s, f.summary());
            s
        },
        Outcome::Blocked(_) => String::from_str("✗ blocked"),
        Outcome::Cancelled => String::from_str("· cancelled"),
    }
}

} // verus!
