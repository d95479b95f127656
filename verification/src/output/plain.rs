//! Line-oriented output for logs, pipes and CI.
//!
//! Append-only, one line per event, no animation and no cursor movement -- readable when
//! several repositories are in flight and the lines interleave. These are the lines; the
//! caller writes them to stderr.
use vstd::prelude::*;

use crate::clone::report::{RepositoryReport, outcome_label};
use crate::text::{decimal, push_decimal, push_str};

verus! {

broadcast use vstd::string::group_string_axioms;

#[derive(Debug, Default)]
pub struct Plain;

impl Plain {
    pub fn new() -> (p: Plain) {
        Plain
    }

    /// The lines that open a run: the product, how many repositories, and the manifest in
    /// effect when it is not the built-in one.
    pub fn begin_lines(&self, product_name: &str, manifest_note: Option<&str>, repositories: usize) -> (s: String)
        ensures
            s@ == "qeet clone: "@ + product_name@ + "\n"@ + decimal(repositories as nat)
                + " repositories"@ + match manifest_note {
                Some(note) => "\nmanifest: "@ + note@,
                None => Seq::<char>::empty(),
            },
    {
        let mut s = String::from_str("qeet clone: ");
        push_str(&mut s, product_name);
        push_str(&mut s, "\n");
        push_decimal(&mut s, repositories as u64);
        push_str(&mut s, " repositories");
        if let Some(note) = manifest_note {
            push_str(&mut s, "\nmanifest: ");
            push_str(&mut s, note);
        }
        s
    }

    /// A repository's clone is starting.
    pub fn started_line(&self, name: &str) -> (s: String)
        ensures
            s@ == "cloning "@ + name@ + "..."@,
    {
        let mut s = String::from_str("cloning ");
        push_str(&mut s, name);
        push_str(&mut s, "...");
        s
    }

    /// A transient failure is about to be retried; `attempt` attempts have been made.
    pub fn retrying_line(&self, name: &str, attempt: u32, reason: &str) -> (s: String)
        requires
            attempt < u32::MAX,
        ensures
            s@ == name@ + ": "@ + reason@ + " retrying (attempt "@ + decimal((attempt + 1) as nat)
                + ")"@,
    {
        let mut s = String::new();
        push_str(&mut s, name);
        push_str(&mut s, ": ");
        push_str(&mut s, reason);
        push_str(&mut s, " retrying (attempt ");
        push_decimal(&mut s, (attempt + 1) as u64);
        push_str(&mut s, ")");
        s
    }

    /// A repository reached its final state.
    pub fn finished_line(&self, entry: &RepositoryReport) -> (s: String)
        ensures
            s@ == entry.name@ + ": "@ + outcome_label(entry.outcome),
    {
        let mut s = String::new();
        push_str(&mut s, entry.name.as_str());
        push_str(&mut s, ": ");
        push_str(&mut s, entry.outcome.label());
        s
    }

    /// Ctrl-C was received.
    pub fn cancelling_line(&self) -> (s: &'static str)
        ensures
            s@ == "interrupted: stopping remaining clones"@,
    {
        "interrupted: stopping remaining clones"
    }
}

} // verus!
