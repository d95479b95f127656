//! `qeet status <product>`: what is on disk, and how it compares to the remote.
//!
//! Strictly read-only: nothing here fetches, so "behind" means "behind what was last
//! fetched". Reading the repositories is the caller's work; what each one's line says, and
//! whether the command succeeded, is decided here.
use vstd::prelude::*;

use crate::git::status::{RepoState, StatusView, blocker_text};
use crate::text::{decimal, push_decimal, push_str};

verus! {

broadcast use vstd::string::group_string_axioms;

/// One repository's line in the report.
#[derive(Debug, Clone, PartialEq, Eq)]
pub enum Entry {
    Present(RepoState),
    Missing,
    /// Something is there, but it is not a repository that can be read.
    Unreadable(String)}

pub enum EntryView {
    Present(StatusView),
    Missing,
    Unreadable(Seq<char>)}

impl View for Entry {
    type V = EntryView;

    open spec fn view(&self) -> EntryView {
        match self {
            Entry::Present(s) => EntryView::Present(s@),
            Entry::Missing => EntryView::Missing,
            Entry::Unreadable(why) => EntryView::Unreadable(why@)}
    }
}

/// The entry for a repository's path: missing when nothing is there, unreadable when it is
/// not a git repository or git could not read it, otherwise its state. What git reported
/// is needed only when the path holds a git repository.
pub fn classify_entry(found: bool, is_repository: bool, inspected: Option<Result<RepoState, String>>) -> (e: Entry)
    requires
        found && is_repository ==> (inspected is Some),
    ensures
        e@ == (if !found {
            EntryView::Missing
        } else if !is_repository {
            EntryView::Unreadable("not a git repository"@)
        } else {
            match inspected.unwrap() {
                Ok(s) => EntryView::Present(s@),
                Err(why) => EntryView::Unreadable(why@)}
        }),
{
    if !found {
        return Entry::Missing;
    }
    if !is_repository {
        return Entry::Unreadable(String::from_str("not a git repository"));
    }
    match inspected {
        Some(Ok(state)) => Entry::Present(state),
        Some(Err(why)) => Entry::Unreadable(why),
        None => Entry::Missing}
}

/// How a line is marked.
#[derive(Debug, Clone, Copy, PartialEq, Eq, Structural)]
pub enum Mark {
    /// Clean and level.
    Clean,
    /// Worth a look: blocked from a fast-forward, or behind.
    Attention,
    /// Not cloned.
    NotCloned,
    /// Could not be read.
    Problem}

/// A line: its mark, the branch column and the detail.
pub open spec fn row_of(e: EntryView) -> (Mark, Seq<char>, Seq<char>) {
    match e {
        EntryView::Present(s) => {
            let branch = match s.branch {
                Some(b) => b,
                None => "(detached)"@};
            match blocker_text(s) {
                Some(b) => (Mark::Attention, branch, b),
                None => if s.behind > 0 {
                    (Mark::Attention, branch, decimal(s.behind as nat) + " behind"@)
                } else {
                    (Mark::Clean, branch, "clean"@)
                }}
        },
        EntryView::Missing => (Mark::NotCloned, "—"@, "not cloned"@),
        EntryView::Unreadable(why) => (Mark::Problem, "—"@, why)}
}

/// A repository's line.
pub fn row(e: &Entry) -> (r: (Mark, String, String))
    ensures
        (r.0, r.1@, r.2@) == row_of(e@),
{
    match e {
        Entry::Present(s) => {
            let branch = match &s.branch {
                Some(b) => crate::text::copy_string(b),
                None => String::from_str("(detached)")};
            match s.blocker() {
                Some(b) => (Mark::Attention, branch, b),
                None => if s.behind > 0 {
                    let mut d = String::new();
                    push_decimal(&mut d, s.behind as u64);
                    push_str(&mut d, " behind");
                    (Mark::Attention, branch, d)
                } else {
                    (Mark::Clean, branch, String::from_str("clean"))
                }}
        },
        Entry::Missing => (Mark::NotCloned, String::from_str("—"), String::from_str("not cloned")),
        Entry::Unreadable(why) => (Mark::Problem, String::from_str("—"), crate::text::copy_string(why))}
}

pub open spec fn entry_views(v: Seq<Entry>) -> Seq<EntryView> {
    v.map_values(|e: Entry| e@)
}

/// How many lines carry a mark, attention counting problems too.
pub open spec fn marked(es: Seq<EntryView>, m: Mark) -> nat
    decreases es.len(),
{
    if es.len() == 0 {
        0
    } else {
        marked(es.drop_last(), m) + if row_of(es.last()).0 == m || (m == Mark::Attention
            && row_of(es.last()).0 == Mark::Problem) {
            1nat
        } else {
            0nat
        }
    }
}

/// The clean, needs-attention and not-cloned counts.
pub fn tally(entries: &Vec<Entry>) -> (t: (usize, usize, usize))
    ensures
        t.0 == marked(entry_views(entries@), Mark::Clean),
        t.1 == marked(entry_views(entries@), Mark::Attention),
        t.2 == marked(entry_views(entries@), Mark::NotCloned),
{
    let ghost es = entry_views(entries@);
    let mut clean: usize = 0;
    let mut attention: usize = 0;
    let mut missing: usize = 0;
    for i in 0..entries.len()
        invariant
            es == entry_views(entries@),
            clean == marked(es.take(i as int), Mark::Clean),
            attention == marked(es.take(i as int), Mark::Attention),
            missing == marked(es.take(i as int), Mark::NotCloned),
            clean + attention + missing <= i,
    {
        assert(es.take(i + 1).drop_last() == es.take(i as int));
        let (m, _, _) = row(&entries[i]);
        match m {
            Mark::Clean => clean = clean + 1,
            Mark::NotCloned => missing = missing + 1,
            _ => attention = attention + 1}
    }
    assert(es.take(entries@.len() as int) == es);
    (clean, attention, missing)
}

/// The line under the listing.
pub fn footer(clean: usize, attention: usize, missing: usize) -> (s: String)
    ensures
        s@ == "clean "@ + decimal(clean as nat) + "  ·  needs attention "@ + decimal(
            attention as nat,
        ) + "  ·  not cloned "@ + decimal(missing as nat),
{
    let mut s = String::from_str("clean ");
    push_decimal(&mut s, clean as u64);
    push_str(&mut s, "  ·  needs attention ");
    push_decimal(&mut s, attention as u64);
    push_str(&mut s, "  ·  not cloned ");
    push_decimal(&mut s, missing as u64);
    s
}

/// The hint shown when something is not cloned.
pub fn clone_hint(product_key: &str) -> (s: String)
    ensures
        s@ == "`qeet clone "@ + product_key@ + "` to fetch what is missing."@,
{
    let mut s = String::from_str("`qeet clone ");
    push_str(&mut s, product_key);
    push_str(&mut s, "` to fetch what is missing.");
    s
}

/// `status` reports; it does not judge. A missing clone is information, not failure: the
/// command succeeds unless something it should have been able to read could not be read.
pub fn succeeded(entries: &Vec<Entry>) -> (ok: bool)
    ensures
        ok == forall|i: int| 0 <= i < entries@.len() ==> !(#[trigger] entries@[i] is Unreadable),
{
    for i in 0..entries.len()
        invariant
            forall|j: int| 0 <= j < i ==> !(#[trigger] entries@[j] is Unreadable),
    {
        if let Entry::Unreadable(_) = &entries[i] {
            return false;
        }
    }
    true
}

} // verus!
