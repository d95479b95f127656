//! `qeet update <product>`: advance what can be advanced, and touch nothing else.
//!
//! This is the only command that changes an existing repository, so it is the most
//! conservative one. A repository is fast-forwarded only when the result is unambiguous:
//! clean, on a branch, tracking an upstream, nothing of its own unpushed, and strictly
//! behind. Anything else is skipped and named. `git merge --ff-only` enforces the same at
//! the git level.
//!
//! Running git is the caller's work; each step's answer goes through [`next_step`], which
//! decides what to do next.
use vstd::prelude::*;

use crate::git::Failure;
use crate::git::classify::summary_text;
use crate::git::status::{RepoState, StatusView, blocker_text};
use crate::output::style::symbol;
use crate::product::byte_len;
use crate::text::{chars_of, decimal, push_char, push_decimal, push_str};

verus! {

broadcast use vstd::string::group_string_axioms;

/// What became of one repository.
#[derive(Debug, Clone, PartialEq, Eq)]
pub enum UpdateResult {
    /// Fast-forwarded (or, in a dry run, would be) by this many commits.
    Advanced { from_behind: u32 },
    AlreadyCurrent,
    /// Left exactly as it was, and why.
    Skipped(String),
    Missing,
    Failed(String)}

pub enum UpdateResultView {
    Advanced { from_behind: u32 },
    AlreadyCurrent,
    Skipped(Seq<char>),
    Missing,
    Failed(Seq<char>)}

impl View for UpdateResult {
    type V = UpdateResultView;

    open spec fn view(&self) -> UpdateResultView {
        match self {
            UpdateResult::Advanced { from_behind } => UpdateResultView::Advanced {
                from_behind: *from_behind},
            UpdateResult::AlreadyCurrent => UpdateResultView::AlreadyCurrent,
            UpdateResult::Skipped(why) => UpdateResultView::Skipped(why@),
            UpdateResult::Missing => UpdateResultView::Missing,
            UpdateResult::Failed(why) => UpdateResultView::Failed(why@)}
    }
}

/// The next thing to do for a repository, or what became of it.
#[derive(Debug, Clone, PartialEq, Eq)]
pub enum Step {
    /// Does anything exist at the path?
    CheckExists,
    /// Does it hold a git repository?
    CheckRepository,
    /// Read its state before touching the remote.
    InspectBefore,
    /// Fetch from the remote.
    Fetch,
    /// Read its state again: fetching can reveal divergence that did not exist before.
    InspectAfter,
    /// Fast-forward, which brings in this many commits.
    FastForward { behind: u32 },
    Done(UpdateResult)}

/// What the caller found out for a step.
#[derive(Debug)]
pub enum Answer {
    /// `CheckExists`, `CheckRepository`.
    Yes(bool),
    /// `InspectBefore`, `InspectAfter`: the state, or why git could not report it.
    Inspected(Result<RepoState, String>),
    /// `Fetch`, `FastForward`: whether git succeeded.
    Ran(Result<(), Failure>)}

pub enum StepView {
    CheckExists,
    CheckRepository,
    InspectBefore,
    Fetch,
    InspectAfter,
    FastForward { behind: u32 },
    Done(UpdateResultView)}

pub enum AnswerView {
    Yes(bool),
    Inspected(Result<StatusView, Seq<char>>),
    /// A failure's summary and stderr.
    Ran(Result<(), (Seq<char>, Seq<char>)>)}

impl View for Step {
    type V = StepView;

    open spec fn view(&self) -> StepView {
        match self {
            Step::CheckExists => StepView::CheckExists,
            Step::CheckRepository => StepView::CheckRepository,
            Step::InspectBefore => StepView::InspectBefore,
            Step::Fetch => StepView::Fetch,
            Step::InspectAfter => StepView::InspectAfter,
            Step::FastForward { behind } => StepView::FastForward { behind: *behind },
            Step::Done(r) => StepView::Done(r@)}
    }
}

impl View for Answer {
    type V = AnswerView;

    open spec fn view(&self) -> AnswerView {
        match self {
            Answer::Yes(b) => AnswerView::Yes(*b),
            Answer::Inspected(r) => AnswerView::Inspected(
                match r {
                    Ok(s) => Ok(s@),
                    Err(why) => Err(why@)},
            ),
            Answer::Ran(r) => AnswerView::Ran(
                match r {
                    Ok(()) => Ok(()),
                    Err(f) => Err((summary_text(f.kind), f.git_stderr@))},
            )}
    }
}

/// Does `a` answer step `s`?
pub open spec fn answers(s: StepView, a: AnswerView) -> bool {
    match s {
        StepView::CheckExists | StepView::CheckRepository => a is Yes,
        StepView::InspectBefore | StepView::InspectAfter => a is Inspected,
        StepView::Fetch | StepView::FastForward { .. } => a is Ran,
        StepView::Done(_) => true}
}

/// A dry run reports against what is already known locally, touching nothing at all.
pub open spec fn described(s: StatusView) -> UpdateResultView {
    if blocker_text(s) is None && s.behind > 0 {
        UpdateResultView::Advanced { from_behind: s.behind }
    } else {
        UpdateResultView::AlreadyCurrent
    }
}

pub open spec fn done(r: UpdateResultView) -> StepView {
    StepView::Done(r)
}

/// The message of a git failure: its summary, then what git said.
pub open spec fn failure_text(summary: Seq<char>, stderr: Seq<char>) -> Seq<char> {
    summary + " "@ + stderr
}

/// What follows a step and its answer.
///
/// Nothing there: missing. Not a repository: a failure. A blocker before fetching skips
/// the repository without touching the remote; a dry run stops there, reporting what is
/// known locally. After the fetch the state is checked again, and only a repository that
/// is strictly behind and can be fast-forwarded is.
pub open spec fn next_step(s: StepView, a: AnswerView, dry_run: bool) -> StepView {
    match s {
        StepView::CheckExists => if a->Yes_0 {
            StepView::CheckRepository
        } else {
            done(UpdateResultView::Missing)
        },
        StepView::CheckRepository => if a->Yes_0 {
            StepView::InspectBefore
        } else {
            done(UpdateResultView::Failed("not a git repository"@))
        },
        StepView::InspectBefore => match a->Inspected_0 {
            Err(why) => done(UpdateResultView::Failed(why)),
            Ok(st) => match blocker_text(st) {
                Some(b) => done(UpdateResultView::Skipped(b)),
                None => if dry_run {
                    done(described(st))
                } else {
                    StepView::Fetch
                }}},
        StepView::Fetch => match a->Ran_0 {
            Err((summary, stderr)) => done(UpdateResultView::Failed(failure_text(summary, stderr))),
            Ok(()) => StepView::InspectAfter},
        StepView::InspectAfter => match a->Inspected_0 {
            Err(why) => done(UpdateResultView::Failed(why)),
            Ok(st) => match blocker_text(st) {
                Some(b) => done(UpdateResultView::Skipped(b)),
                None => if st.ahead == 0 && st.behind == 0 {
                    done(UpdateResultView::AlreadyCurrent)
                } else if !(blocker_text(st) is None && st.behind > 0) {
                    done(UpdateResultView::AlreadyCurrent)
                } else {
                    StepView::FastForward { behind: st.behind }
                }}},
        StepView::FastForward { behind } => match a->Ran_0 {
            Err((summary, stderr)) => done(UpdateResultView::Failed(failure_text(summary, stderr))),
            Ok(()) => done(UpdateResultView::Advanced { from_behind: behind })},
        StepView::Done(r) => StepView::Done(r)}
}

fn failure_message(f: &Failure) -> (m: String)
    ensures
        m@ == failure_text(summary_text(f.kind), f.git_stderr@),
{
    let mut m = String::from_str(f.summary());
    push_str(&mut m, " ");
    push_str(&mut m, f.git_stderr.as_str());
    m
}

fn describe(state: &RepoState) -> (r: UpdateResult)
    ensures
        r@ == described(state@),
{
    if state.fast_forwardable() {
        UpdateResult::Advanced { from_behind: state.behind }
    } else {
        UpdateResult::AlreadyCurrent
    }
}

/// What follows `step`, given the answer.
pub fn next(step: Step, answer: Answer, dry_run: bool) -> (n: Step)
    requires
        answers(step@, answer@),
    ensures
        n@ == next_step(step@, answer@, dry_run),
{
    match step {
        Step::CheckExists => match answer {
            Answer::Yes(true) => Step::CheckRepository,
            _ => Step::Done(UpdateResult::Missing)},
        Step::CheckRepository => match answer {
            Answer::Yes(true) => Step::InspectBefore,
            _ => Step::Done(UpdateResult::Failed(String::from_str("not a git repository")))},
        Step::InspectBefore => match answer {
            Answer::Inspected(Err(why)) => Step::Done(UpdateResult::Failed(why)),
            Answer::Inspected(Ok(state)) => match state.blocker() {
                Some(b) => Step::Done(UpdateResult::Skipped(b)),
                None => if dry_run {
                    Step::Done(describe(&state))
                } else {
                    Step::Fetch
                }},
            _ => Step::InspectBefore},
        Step::Fetch => match answer {
            Answer::Ran(Err(f)) => Step::Done(UpdateResult::Failed(failure_message(&f))),
            _ => Step::InspectAfter},
        Step::InspectAfter => match answer {
            Answer::Inspected(Err(why)) => Step::Done(UpdateResult::Failed(why)),
            Answer::Inspected(Ok(state)) => match state.blocker() {
                Some(b) => Step::Done(UpdateResult::Skipped(b)),
                None => if state.up_to_date() {
                    Step::Done(UpdateResult::AlreadyCurrent)
                } else if !state.fast_forwardable() {
                    Step::Done(UpdateResult::AlreadyCurrent)
                } else {
                    Step::FastForward { behind: state.behind }
                }},
            _ => Step::InspectAfter},
        Step::FastForward { behind } => match answer {
            Answer::Ran(Err(f)) => Step::Done(UpdateResult::Failed(failure_message(&f))),
            _ => Step::Done(UpdateResult::Advanced { from_behind: behind })},
        Step::Done(r) => Step::Done(r)}
}

/// Law: a repository is only ever fast-forwarded from a state with no blocker that is
/// strictly behind -- whatever the answers, the step that fast-forwards follows an
/// inspection finding exactly that.
pub proof fn law_fast_forward_only_when_unambiguous(s: StepView, a: AnswerView, dry_run: bool)
    requires
        answers(s, a),
        next_step(s, a, dry_run) is FastForward,
    ensures
        s is InspectAfter,
        a matches AnswerView::Inspected(Ok(st)) && blocker_text(st) is None && st.behind > 0
            && next_step(s, a, dry_run) == (StepView::FastForward { behind: st.behind }),
{
}

/// Law: a dry run never reaches a step that changes anything -- it neither fetches nor
/// fast-forwards.
pub proof fn law_dry_run_changes_nothing(s: StepView, a: AnswerView)
    requires
        answers(s, a),
        !(s is Fetch || s is InspectAfter || s is FastForward),
    ensures
        !(next_step(s, a, true) is Fetch),
        !(next_step(s, a, true) is FastForward),
{
}

/// The text of a repository's line.
pub open spec fn line_text(r: UpdateResultView, dry_run: bool) -> Seq<char> {
    match r {
        UpdateResultView::Advanced { from_behind } => if dry_run {
            "would fast-forward "@ + decimal(from_behind as nat) + " commit(s)"@
        } else {
            "fast-forwarded "@ + decimal(from_behind as nat) + " commit(s)"@
        },
        UpdateResultView::AlreadyCurrent => "already up to date"@,
        UpdateResultView::Skipped(why) => "skipped: "@ + why,
        UpdateResultView::Missing => "not cloned"@,
        UpdateResultView::Failed(why) => why}
}

/// A repository's line.
pub fn result_line(r: &UpdateResult, dry_run: bool) -> (s: String)
    ensures
        s@ == line_text(r@, dry_run),
{
    match r {
        UpdateResult::Advanced { from_behind } => {
            let mut s = if dry_run {
                String::from_str("would fast-forward ")
            } else {
                String::from_str("fast-forwarded ")
            };
            push_decimal(&mut s, *from_behind as u64);
            push_str(&mut s, " commit(s)");
            s
        },
        UpdateResult::AlreadyCurrent => String::from_str("already up to date"),
        UpdateResult::Skipped(why) => {
            let mut s = String::from_str("skipped: ");
            push_str(&mut s, why.as_str());
            s
        },
        UpdateResult::Missing => String::from_str("not cloned"),
        UpdateResult::Failed(why) => crate::text::copy_string(why)}
}

pub open spec fn result_views(v: Seq<UpdateResult>) -> Seq<UpdateResultView> {
    v.map_values(|r: UpdateResult| r@)
}

/// The counts of each kind of result: updated, up to date, skipped, not cloned, failed.
pub open spec fn tally_of(rs: Seq<UpdateResultView>) -> (nat, nat, nat, nat, nat)
    decreases rs.len(),
{
    if rs.len() == 0 {
        (0, 0, 0, 0, 0)
    } else {
        let t = tally_of(rs.drop_last());
        match rs.last() {
            UpdateResultView::Advanced { .. } => ((t.0 + 1) as nat, t.1, t.2, t.3, t.4),
            UpdateResultView::AlreadyCurrent => (t.0, (t.1 + 1) as nat, t.2, t.3, t.4),
            UpdateResultView::Skipped(_) => (t.0, t.1, (t.2 + 1) as nat, t.3, t.4),
            UpdateResultView::Missing => (t.0, t.1, t.2, (t.3 + 1) as nat, t.4),
            UpdateResultView::Failed(_) => (t.0, t.1, t.2, t.3, (t.4 + 1) as nat)}
    }
}

/// The counts of each kind of result.
pub fn tally(results: &Vec<UpdateResult>) -> (t: (usize, usize, usize, usize, usize))
    ensures
        (t.0 as nat, t.1 as nat, t.2 as nat, t.3 as nat, t.4 as nat) == tally_of(
            result_views(results@),
        ),
{
    let ghost rs = result_views(results@);
    let mut t: (usize, usize, usize, usize, usize) = (0, 0, 0, 0, 0);
    for i in 0..results.len()
        invariant
            rs == result_views(results@),
            (t.0 as nat, t.1 as nat, t.2 as nat, t.3 as nat, t.4 as nat) == tally_of(
                rs.take(i as int),
            ),
            t.0 + t.1 + t.2 + t.3 + t.4 <= i,
    {
        assert(rs.take(i + 1).drop_last() == rs.take(i as int));
        match &results[i] {
            UpdateResult::Advanced { .. } => t.0 = t.0 + 1,
            UpdateResult::AlreadyCurrent => t.1 = t.1 + 1,
            UpdateResult::Skipped(_) => t.2 = t.2 + 1,
            UpdateResult::Missing => t.3 = t.3 + 1,
            UpdateResult::Failed(_) => t.4 = t.4 + 1}
    }
    assert(rs.take(results@.len() as int) == rs);
    t
}

/// The line under the listing: the counts of each kind of result.
pub open spec fn footer_text(t: (nat, nat, nat, nat, nat)) -> Seq<char> {
    "updated "@ + decimal(t.0) + "  ·  up to date "@ + decimal(t.1) + "  ·  skipped "@
        + decimal(t.2) + "  ·  not cloned "@ + decimal(t.3) + "  ·  failed "@ + decimal(t.4)
}

/// The line under the listing.
pub fn footer(t: (usize, usize, usize, usize, usize)) -> (s: String)
    ensures
        s@ == footer_text((t.0 as nat, t.1 as nat, t.2 as nat, t.3 as nat, t.4 as nat)),
{
    let mut s = String::from_str("updated ");
    push_decimal(&mut s, t.0 as u64);
    push_str(&mut s, "  ·  up to date ");
    push_decimal(&mut s, t.1 as u64);
    push_str(&mut s, "  ·  skipped ");
    push_decimal(&mut s, t.2 as u64);
    push_str(&mut s, "  ·  not cloned ");
    push_decimal(&mut s, t.3 as u64);
    push_str(&mut s, "  ·  failed ");
    push_decimal(&mut s, t.4 as u64);
    s
}

/// The symbol a result is shown with.
pub open spec fn symbol_text(r: UpdateResultView) -> Seq<char> {
    match r {
        UpdateResultView::Advanced { .. } => "✓"@,
        UpdateResultView::AlreadyCurrent => "·"@,
        UpdateResultView::Skipped(_) => "!"@,
        UpdateResultView::Missing => "○"@,
        UpdateResultView::Failed(_) => "✗"@,
    }
}

/// The widest repository name, in bytes (`str::len`), that the name column is padded to.
pub open spec fn name_width(names: Seq<Seq<char>>) -> nat
    decreases names.len(),
{
    if names.len() == 0 {
        0
    } else {
        let w = name_width(names.drop_last());
        let n = byte_len(names.last()) as nat;
        if n > w {
            n
        } else {
            w
        }
    }
}

/// `name` left-aligned in a column `width` characters wide (`{:<width$}`): followed by as
/// many spaces as it is short of the width.
pub open spec fn padded(name: Seq<char>, width: nat) -> Seq<char> {
    name + Seq::new(
        if width > name.len() {
            (width - name.len()) as nat
        } else {
            0
        },
        |i: int| ' ',
    )
}

/// One repository's row.
pub open spec fn row_text(name: Seq<char>, r: UpdateResultView, width: nat, dry_run: bool) -> Seq<
    char,
> {
    "  "@ + padded(name, width) + "  "@ + symbol_text(r) + " "@ + line_text(r, dry_run) + "\n"@
}

pub open spec fn row_names(rows: Seq<(String, UpdateResult)>) -> Seq<Seq<char>> {
    rows.map_values(|row: (String, UpdateResult)| row.0@)
}

pub open spec fn row_results(rows: Seq<(String, UpdateResult)>) -> Seq<UpdateResultView> {
    rows.map_values(|row: (String, UpdateResult)| row.1@)
}

/// The rows, in order.
pub open spec fn rows_text(rows: Seq<(String, UpdateResult)>, width: nat, dry_run: bool) -> Seq<char>
    decreases rows.len(),
{
    if rows.len() == 0 {
        Seq::<char>::empty()
    } else {
        rows_text(rows.drop_last(), width, dry_run) + row_text(
            rows.last().0@,
            rows.last().1@,
            width,
            dry_run,
        )
    }
}

/// The lines above the listing: a blank line; the product's name, noting a dry run; the
/// manifest in effect when it is not the built-in one; a blank line.
pub open spec fn report_head(product_name: Seq<char>, dry_run: bool, note: Option<Seq<char>>) -> Seq<
    char,
> {
    "\n"@ + product_name + (if dry_run {
        "  (dry run — nothing was changed)"@
    } else {
        Seq::<char>::empty()
    }) + "\n"@ + match note {
        Some(n) => "manifest: "@ + n + "\n"@,
        None => Seq::<char>::empty(),
    } + "\n"@
}

/// The lines below the listing: a blank line; the counts; and, when anything was skipped,
/// the advice to resolve it by hand.
pub open spec fn report_tail(t: (nat, nat, nat, nat, nat)) -> Seq<char> {
    "\n"@ + "  "@ + footer_text(t) + "\n"@ + if t.2 > 0 {
        "  Skipped repositories were left exactly as they were. Resolve them by hand.\n"@
    } else {
        Seq::<char>::empty()
    }
}

/// What `qeet update` prints: the head, one row per repository with the names padded to
/// the widest, and the tail.
pub open spec fn report_text(
    product_name: Seq<char>,
    dry_run: bool,
    note: Option<Seq<char>>,
    rows: Seq<(String, UpdateResult)>,
) -> Seq<char> {
    report_head(product_name, dry_run, note) + rows_text(rows, name_width(row_names(rows)), dry_run)
        + report_tail(tally_of(row_results(rows)))
}

fn head_lines(product_name: &str, dry_run: bool, note: Option<&str>) -> (s: String)
    ensures
        s@ == report_head(
            product_name@,
            dry_run,
            match note {
                Some(n) => Some(n@),
                None => None,
            },
        ),
{
    let mut s = String::from_str("\n");
    push_str(&mut s, product_name);
    if dry_run {
        push_str(&mut s, "  (dry run — nothing was changed)");
    }
    push_str(&mut s, "\n");
    if let Some(n) = note {
        push_str(&mut s, "manifest: ");
        push_str(&mut s, n);
        push_str(&mut s, "\n");
    }
    push_str(&mut s, "\n");
    s
}

fn tail_lines(t: (usize, usize, usize, usize, usize)) -> (s: String)
    ensures
        s@ == report_tail((t.0 as nat, t.1 as nat, t.2 as nat, t.3 as nat, t.4 as nat)),
{
    let mut s = String::from_str("\n");
    push_str(&mut s, "  ");
    let f = footer(t);
    push_str(&mut s, f.as_str());
    push_str(&mut s, "\n");
    if t.2 > 0 {
        push_str(&mut s, "  Skipped repositories were left exactly as they were. Resolve them by hand.\n");
    }
    s
}

fn name_column_width(rows: &Vec<(String, UpdateResult)>) -> (width: usize)
    ensures
        width as nat == name_width(row_names(rows@)),
{
    let ghost names = row_names(rows@);
    let mut width: usize = 0;
    for i in 0..rows.len()
        invariant
            names == row_names(rows@),
            width as nat == name_width(names.take(i as int)),
    {
        assert(names.take(i + 1).drop_last() == names.take(i as int));
        let n = rows[i].0.as_str().len();
        assert(n == byte_len(names[i as int]));
        if n > width {
            width = n;
        }
    }
    assert(names.take(rows@.len() as int) == names);
    width
}

fn symbol_of(r: &UpdateResult) -> (s: &'static str)
    ensures
        s@ == symbol_text(r@),
{
    match r {
        UpdateResult::Advanced { .. } => symbol::OK,
        UpdateResult::AlreadyCurrent => symbol::SKIP,
        UpdateResult::Skipped(_) => symbol::WARN,
        UpdateResult::Missing => symbol::PENDING,
        UpdateResult::Failed(_) => symbol::BAD,
    }
}

/// Append one repository's row.
fn push_row(s: &mut String, name: &String, result: &UpdateResult, width: usize, dry_run: bool)
    ensures
        final(s)@ == old(s)@ + row_text(name@, result@, width as nat, dry_run),
{
    let ghost before = s@;
    push_str(s, "  ");
    push_str(s, name.as_str());
    let count = chars_of(name.as_str()).len();
    let mut k = count;
    while k < width
        invariant
            count == name@.len(),
            count <= k,
            k <= width || k == count,
            s@ == before + "  "@ + name@ + Seq::new((k - count) as nat, |j: int| ' '),
        decreases width - k,
    {
        push_char(s, ' ');
        assert(Seq::new((k + 1 - count) as nat, |j: int| ' ') =~= Seq::new(
            (k - count) as nat,
            |j: int| ' ',
        ).push(' '));
        k = k + 1;
    }
    assert(padded(name@, width as nat) =~= name@ + Seq::new((k - count) as nat, |j: int| ' '));
    push_str(s, "  ");
    push_str(s, symbol_of(result));
    push_str(s, " ");
    let line = result_line(result, dry_run);
    push_str(s, line.as_str());
    push_str(s, "\n");
    assert(s@ =~= before + row_text(name@, result@, width as nat, dry_run));
}

/// The counts of each kind of result among the rows.
fn row_tally(rows: &Vec<(String, UpdateResult)>) -> (t: (usize, usize, usize, usize, usize))
    ensures
        (t.0 as nat, t.1 as nat, t.2 as nat, t.3 as nat, t.4 as nat) == tally_of(
            row_results(rows@),
        ),
{
    let ghost rs = row_results(rows@);
    let mut t: (usize, usize, usize, usize, usize) = (0, 0, 0, 0, 0);
    for i in 0..rows.len()
        invariant
            rs == row_results(rows@),
            (t.0 as nat, t.1 as nat, t.2 as nat, t.3 as nat, t.4 as nat) == tally_of(
                rs.take(i as int),
            ),
            t.0 + t.1 + t.2 + t.3 + t.4 <= i,
    {
        assert(rs.take(i + 1).drop_last() == rs.take(i as int));
        assert(rs[i as int] == rows@[i as int].1@);
        match &rows[i].1 {
            UpdateResult::Advanced { .. } => t.0 = t.0 + 1,
            UpdateResult::AlreadyCurrent => t.1 = t.1 + 1,
            UpdateResult::Skipped(_) => t.2 = t.2 + 1,
            UpdateResult::Missing => t.3 = t.3 + 1,
            UpdateResult::Failed(_) => t.4 = t.4 + 1,
        }
    }
    assert(rs.take(rows@.len() as int) == rs);
    t
}

/// The text `qeet update` prints for its results.
pub fn report(product_name: &str, dry_run: bool, note: Option<&str>, rows: &Vec<(String, UpdateResult)>) -> (s: String)
    ensures
        s@ == report_text(
            product_name@,
            dry_run,
            match note {
                Some(n) => Some(n@),
                None => None,
            },
            rows@,
        ),
{
    let width = name_column_width(rows);
    let mut s = head_lines(product_name, dry_run, note);
    let ghost head = s@;
    for i in 0..rows.len()
        invariant
            s@ == head + rows_text(rows@.take(i as int), width as nat, dry_run),
    {
        assert(rows@.take(i + 1).drop_last() == rows@.take(i as int));
        assert(rows@.take(i + 1).last() == rows@[i as int]);
        push_row(&mut s, &rows[i].0, &rows[i].1, width, dry_run);
    }
    assert(rows@.take(rows@.len() as int) == rows@);
    let t = row_tally(rows);
    let tail = tail_lines(t);
    push_str(&mut s, tail.as_str());
    s
}

/// The command succeeds unless a repository failed; a skipped one was left as it was, by
/// design.
pub fn succeeded(results: &Vec<UpdateResult>) -> (ok: bool)
    ensures
        ok == forall|i: int| 0 <= i < results@.len() ==> !(#[trigger] results@[i] is Failed),
{
    for i in 0..results.len()
        invariant
            forall|j: int| 0 <= j < i ==> !(#[trigger] results@[j] is Failed),
    {
        if let UpdateResult::Failed(_) = &results[i] {
            return false;
        }
    }
    true
}

} // verus!
