//! What a clone run says.
//!
//! Two renderers show a run: spinners for a developer watching a terminal, plain
//! append-only lines for a log or CI. Both end with the same summary, built here.
//!
//! Stream discipline, because a CLI's output is an interface: stderr carries progress and
//! diagnostics, stdout carries the result -- the final summary, and nothing else. The
//! per-repository diagnosis is a problem report, so it goes to stderr.
use vstd::prelude::*;

pub mod plain;
pub mod progress;
pub mod style;

use crate::clone::report::{Outcome, Report, RepositoryReport, Tally, count, outcome_label};
use crate::git::classify::{guidance_text, str_views, summary_text};
use crate::text::{
    chars_of, decimal, lines, lines_exec, push_chars, push_decimal, push_signed_decimal, push_str,
    signed_decimal, views,
};
use crate::workspace::{blocked_guidance, blocked_text};

verus! {

broadcast use vstd::string::group_string_axioms;

/// A renderer that draws nothing.
#[derive(Debug, Default)]
pub struct Silent;

/// The headline of a run: cancelled, completed with errors, or everything in place and
/// how long it took.
pub open spec fn headline_text(
    product: Seq<char>,
    total: nat,
    succeeded: nat,
    failed: nat,
    cancelled: bool,
    elapsed: Seq<char>,
) -> Seq<char> {
    if cancelled {
        product + ": cancelled. "@ + decimal(succeeded) + " of "@ + decimal(total)
            + " repositories completed."@
    } else if failed > 0 {
        product + ": completed with errors. "@ + decimal(succeeded) + " of "@ + decimal(total)
            + " succeeded."@
    } else {
        product + ": "@ + decimal(total) + " of "@ + decimal(total) + " repositories in "@
            + elapsed + "."@
    }
}

/// The headline of a report, `elapsed` being the run's duration as shown to the user.
pub fn headline(report: &Report, elapsed: &str) -> (s: String)
    ensures
        s@ == headline_text(
            report.product_name@,
            report.repositories@.len(),
            count(report.repositories@, Tally::Succeeded),
            count(report.repositories@, Tally::Failed),
            report.cancelled,
            elapsed@,
        ),
{
    let total = report.total() as u64;
    let mut s = String::new();
    push_str(&mut s, report.product_name.as_str());
    if report.cancelled {
        push_str(&mut s, ": cancelled. ");
        push_decimal(&mut s, report.succeeded() as u64);
        push_str(&mut s, " of ");
        push_decimal(&mut s, total);
        push_str(&mut s, " repositories completed.");
    } else if report.failed() > 0 {
        push_str(&mut s, ": completed with errors. ");
        push_decimal(&mut s, report.succeeded() as u64);
        push_str(&mut s, " of ");
        push_decimal(&mut s, total);
        push_str(&mut s, " succeeded.");
    } else {
        push_str(&mut s, ": ");
        push_decimal(&mut s, total);
        push_str(&mut s, " of ");
        push_decimal(&mut s, total);
        push_str(&mut s, " repositories in ");
        push_str(&mut s, elapsed);
        push_str(&mut s, ".");
    }
    s
}

/// `text` with every line after the first indented by two spaces.
pub open spec fn indented(text: Seq<char>) -> Seq<char>
    decreases text.len(),
{
    if text.len() == 0 {
        text
    } else if text.last() == '\n' {
        indented(text.drop_last()) + "\n  "@
    } else {
        indented(text.drop_last()).push(text.last())
    }
}

/// Refusal messages can span lines; keep the continuation lines aligned.
pub fn indent_continuation(text: &str) -> (s: String)
    ensures
        s@ == indented(text@),
{
    let c = chars_of(text);
    let mut s = String::new();
    for i in 0..c.len()
        invariant
            c@ == text@,
            s@ == indented(c@.take(i as int)),
    {
        assert(c@.take(i + 1).drop_last() == c@.take(i as int));
        if c[i] == '\n' {
            push_str(&mut s, "\n  ");
        } else {
            crate::text::push_char(&mut s, c[i]);
        }
    }
    assert(c@.take(c@.len() as int) == c@);
    s
}

/// Each item on a line of its own, after `prefix`.
pub open spec fn listed(prefix: Seq<char>, items: Seq<Seq<char>>) -> Seq<char>
    decreases items.len(),
{
    if items.len() == 0 {
        Seq::<char>::empty()
    } else {
        listed(prefix, items.drop_last()) + prefix + items.last() + "\n"@
    }
}

fn push_listed(s: &mut String, prefix: &str, items: &Vec<Vec<char>>)
    ensures
        final(s)@ == old(s)@ + listed(prefix@, views(items@)),
{
    let ghost start = s@;
    for i in 0..items.len()
        invariant
            s@ == start + listed(prefix@, views(items@).take(i as int)),
    {
        assert(views(items@).take(i + 1).drop_last() == views(items@).take(i as int));
        push_str(s, prefix);
        push_chars(s, &items[i], 0, items[i].len());
        push_str(s, "\n");
        assert(items@[i as int]@.subrange(0, items@[i as int]@.len() as int) == items@[i as int]@);
    }
    assert(views(items@).take(items@.len() as int) == views(items@));
}

/// The next steps after a problem, when there are any.
pub open spec fn next_steps(steps: Seq<Seq<char>>) -> Seq<char> {
    if steps.len() == 0 {
        Seq::<char>::empty()
    } else {
        "\n  Next steps:\n"@ + listed("    - "@, steps)
    }
}

fn push_next_steps(s: &mut String, steps: &Vec<&str>)
    ensures
        final(s)@ == old(s)@ + next_steps(str_views(steps@)),
{
    if steps.len() == 0 {
        return;
    }
    push_str(s, "\n  Next steps:\n");
    let mut items: Vec<Vec<char>> = Vec::new();
    for i in 0..steps.len()
        invariant
            items@.len() == i,
            views(items@) == str_views(steps@).take(i as int),
    {
        let ghost before = views(items@);
        items.push(chars_of(steps[i]));
        assert forall|k: int| 0 <= k < i + 1 implies #[trigger] views(items@)[k] == str_views(
            steps@,
        ).take(i + 1)[k] by {
            if k < i {
                assert(views(items@)[k] == before[k]);
            }
        }
        assert(views(items@) =~= str_views(steps@).take(i + 1));
    }
    assert(str_views(steps@).take(steps@.len() as int) == str_views(steps@));
    push_listed(s, "    - ", &items);
}

/// How a problem is explained, below its heading line.
pub open spec fn problem_detail(entry: RepositoryReport) -> Seq<char> {
    match entry.outcome {
        Outcome::Failed(f) => "  "@ + summary_text(f.kind) + "\n"@ + match f.exit_code {
            Some(code) => "  git exited with code "@ + signed_decimal(code as int) + ".\n"@,
            None => Seq::<char>::empty(),
        } + if f.git_stderr@.len() == 0 {
            Seq::<char>::empty()
        } else {
            "\n  git:\n"@ + listed("    "@, lines(f.git_stderr@))
        } + next_steps(guidance_text(f.kind)),
        Outcome::Blocked(b) => "  "@ + indented(blocked_text(b@)) + "\n  at "@ + entry.display@
            + "\n"@ + next_steps(seq![blocked_guidance(b@)]),
        Outcome::Cancelled => "  Not attempted: the run was cancelled.\n"@,
        _ => Seq::<char>::empty(),
    }
}

/// One problem: its heading line, its explanation, and a blank line.
pub open spec fn problem_block(entry: RepositoryReport) -> Seq<char> {
    entry.name@ + " ("@ + outcome_label(entry.outcome) + ")\n"@ + problem_detail(entry) + "\n"@
}

pub open spec fn problem_blocks(entries: Seq<RepositoryReport>) -> Seq<char>
    decreases entries.len(),
{
    if entries.len() == 0 {
        Seq::<char>::empty()
    } else {
        problem_blocks(entries.drop_last()) + problem_block(entries.last())
    }
}

/// The diagnosis of the repositories that did not succeed; nothing when every one did.
pub open spec fn problems_text(problems: Seq<RepositoryReport>) -> Seq<char> {
    if problems.len() == 0 {
        Seq::<char>::empty()
    } else {
        "\n"@ + problem_blocks(problems)
    }
}

fn push_problem_block(s: &mut String, entry: &RepositoryReport)
    ensures
        final(s)@ == old(s)@ + problem_block(*entry),
{
    let ghost start = s@;
    push_str(s, entry.name.as_str());
    push_str(s, " (");
    push_str(s, entry.outcome.label());
    push_str(s, ")\n");
    let ghost head = s@;
    match &entry.outcome {
        Outcome::Failed(failure) => {
            push_str(s, "  ");
            push_str(s, failure.summary());
            push_str(s, "\n");
            match failure.exit_code {
                Some(code) => {
                    push_str(s, "  git exited with code ");
                    push_signed_decimal(s, code);
                    push_str(s, ".\n");
                },
                None => {},
            }
            if !failure.git_stderr.as_str().is_empty() {
                push_str(s, "\n  git:\n");
                let ls = lines_exec(&chars_of(failure.git_stderr.as_str()));
                push_listed(s, "    ", &ls);
            }
            push_next_steps(s, &failure.guidance());
        },
        Outcome::Blocked(blocked) => {
            push_str(s, "  ");
            let text = indent_continuation(blocked.message().as_str());
            push_str(s, text.as_str());
            push_str(s, "\n  at ");
            push_str(s, entry.display.as_str());
            push_str(s, "\n");
            let steps = vec![blocked.guidance()];
            assert(str_views(steps@) =~= seq![blocked_guidance(blocked@)]);
            push_next_steps(s, &steps);
        },
        Outcome::Cancelled => {
            push_str(s, "  Not attempted: the run was cancelled.\n");
        },
        _ => {},
    }
    assert(s@ =~= head + problem_detail(*entry));
    push_str(s, "\n");
}

/// The stderr half of the summary: every repository that did not succeed, explained.
pub fn problem_report(report: &Report) -> (s: String)
    ensures
        s@ == problems_text(crate::clone::report::problems_of(report.repositories@)),
{
    let problems = report.problems();
    let ghost ps = problems@.map_values(|r: &RepositoryReport| *r);
    let mut s = String::new();
    if problems.len() == 0 {
        return s;
    }
    push_str(&mut s, "\n");
    for i in 0..problems.len()
        invariant
            ps == problems@.map_values(|r: &RepositoryReport| *r),
            s@ == "\n"@ + problem_blocks(ps.take(i as int)),
    {
        assert(ps.take(i + 1).drop_last() == ps.take(i as int));
        assert(ps.take(i + 1).last() == *problems@[i as int]);
        push_problem_block(&mut s, problems[i]);
    }
    assert(ps.take(problems@.len() as int) == ps);
    s
}

/// The stdout half of the summary: the headline and the counts. The already-present and
/// cancelled counts are shown only when they are not zero.
pub open spec fn counts_text(
    headline: Seq<char>,
    cloned: nat,
    present: nat,
    failed: nat,
    cancelled: nat,
) -> Seq<char> {
    "\n"@ + headline + "\n\n"@ + "  Cloned:          "@ + decimal(cloned) + "\n"@ + (if present > 0 {
        "  Already present: "@ + decimal(present) + "\n"@
    } else {
        Seq::<char>::empty()
    }) + "  Failed:          "@ + decimal(failed) + "\n"@ + if cancelled > 0 {
        "  Cancelled:       "@ + decimal(cancelled) + "\n"@
    } else {
        Seq::<char>::empty()
    }
}

/// The stdout half of the summary of a report.
pub fn summary(report: &Report, elapsed: &str) -> (s: String)
    ensures
        s@ == counts_text(
            headline_text(
                report.product_name@,
                report.repositories@.len(),
                count(report.repositories@, Tally::Succeeded),
                count(report.repositories@, Tally::Failed),
                report.cancelled,
                elapsed@,
            ),
            count(report.repositories@, Tally::Cloned),
            count(report.repositories@, Tally::AlreadyPresent),
            count(report.repositories@, Tally::Failed),
            count(report.repositories@, Tally::Cancelled),
        ),
{
    let h = headline(report, elapsed);
    let mut s = String::from_str("\n");
    push_str(&mut s, h.as_str());
    push_str(&mut s, "\n\n");
    push_str(&mut s, "  Cloned:          ");
    push_decimal(&mut s, report.cloned() as u64);
    push_str(&mut s, "\n");
    let present = report.already_present();
    if present > 0 {
        push_str(&mut s, "  Already present: ");
        push_decimal(&mut s, present as u64);
        push_str(&mut s, "\n");
    }
    push_str(&mut s, "  Failed:          ");
    push_decimal(&mut s, report.failed() as u64);
    push_str(&mut s, "\n");
    let cancelled = report.cancelled_repositories();
    if cancelled > 0 {
        push_str(&mut s, "  Cancelled:       ");
        push_decimal(&mut s, cancelled as u64);
        push_str(&mut s, "\n");
    }
    s
}

} // verus!
