//! Reading `git status --porcelain=v2 --branch`, and the small decisions about how git is
//! run.
//!
//! The v2 format is used precisely because it is documented as stable and machine-readable;
//! v1 and the human-readable output are not.
use vstd::prelude::*;

use crate::text::{
    lines, lines_exec, opt_view, push_signed_decimal, signed_decimal,
    Sep, blank, chars_of, decimal, eq_chars, is_blank, is_digit, is_ascii_digit,
    push_decimal, push_str, split, split_exec, starts_with, starts_with_exec, string_of,
    sub_vec, trim, trim_bounds, views};

verus! {

broadcast use vstd::string::group_string_axioms;

// ---------------------------------------------------------------------------------------
// Lines and numbers
// ---------------------------------------------------------------------------------------

/// The value of a run of decimal digits.
pub open spec fn digits_value(d: Seq<char>) -> nat
    decreases d.len(),
{
    if d.len() == 0 {
        0
    } else {
        digits_value(d.drop_last()) * 10 + ((d.last() as u32) - ('0' as u32)) as nat
    }
}

/// Only ASCII digits.
pub open spec fn all_digits(d: Seq<char>) -> bool {
    forall|i: int| 0 <= i < d.len() ==> is_ascii_digit(#[trigger] d[i])
}

/// `str::parse::<u32>`: an optional `+`, then at least one digit, and no overflow.
pub open spec fn parse_u32(s: Seq<char>) -> Option<u32> {
    let d = if s.len() > 0 && s[0] == '+' {
        s.drop_first()
    } else {
        s
    };
    if d.len() > 0 && all_digits(d) && digits_value(d) <= u32::MAX {
        Some(digits_value(d) as u32)
    } else {
        None
    }
}

pub(crate) proof fn lemma_digits_value_monotone(d: Seq<char>, i: int)
    requires
        0 <= i <= d.len(),
        forall|k: int| 0 <= k < d.len() ==> is_ascii_digit(#[trigger] d[k]),
    ensures
        digits_value(d.take(i)) <= digits_value(d),
    decreases d.len() - i,
{
    if i < d.len() {
        lemma_digits_value_monotone(d, i + 1);
        assert(d.take(i + 1).drop_last() == d.take(i));
    } else {
        assert(d.take(i) == d);
    }
}

fn parse_u32_exec(v: &Vec<char>) -> (r: Option<u32>)
    ensures
        r == parse_u32(v@),
{
    let start: usize = if v.len() > 0 && v[0] == '+' {
        1
    } else {
        0
    };
    let d = sub_vec(v, start, v.len());
    let ghost dd = if v@.len() > 0 && v@[0] == '+' {
        v@.drop_first()
    } else {
        v@
    };
    assert(d@ == dd);
    if d.len() == 0 {
        return None;
    }
    let mut acc: u64 = 0;
    let mut i: usize = 0;
    while i < d.len()
        invariant
            d@ == dd,
            dd == if v@.len() > 0 && v@[0] == '+' {
                v@.drop_first()
            } else {
                v@
            },
            i <= d@.len(),
            forall|k: int| 0 <= k < i ==> is_ascii_digit(#[trigger] d@[k]),
            acc == digits_value(d@.take(i as int)),
            acc <= u32::MAX,
        decreases d@.len() - i,
    {
        let c = d[i];
        if !is_digit(c) {
            assert(!is_ascii_digit(dd[i as int]));
            assert(!all_digits(dd));
            return None;
        }
        assert(d@.take(i + 1).drop_last() == d@.take(i as int));
        let next = acc * 10 + (c as u64 - '0' as u64);
        if next > 4294967295 {
            proof {
                // every later digit only makes the number larger
                if all_digits(dd) {
                    lemma_digits_value_monotone(dd, i + 1);
                    assert(digits_value(dd) > u32::MAX);
                }
            }
            return None;
        }
        acc = next;
        i = i + 1;
    }
    assert(d@.take(d@.len() as int) == d@);
    Some(acc as u32)
}

// ---------------------------------------------------------------------------------------
// Repository state
// ---------------------------------------------------------------------------------------

/// A repository's state as `git status` reports it.
#[derive(Debug, Clone, PartialEq, Eq)]
pub struct RepoState {
    /// The checked-out branch; `None` on a detached HEAD.
    pub branch: Option<String>,
    /// The upstream the branch tracks.
    pub upstream: Option<String>,
    /// Commits on the branch that the upstream does not have.
    pub ahead: u32,
    /// Commits on the upstream that the branch does not have.
    pub behind: u32,
    /// Changed, staged, renamed, unmerged and untracked entries.
    pub dirty: usize}

/// A [`RepoState`] as a value of the specification.
pub struct StatusView {
    pub branch: Option<Seq<char>>,
    pub upstream: Option<Seq<char>>,
    pub ahead: u32,
    pub behind: u32,
    pub dirty: nat}

impl View for RepoState {
    type V = StatusView;

    open spec fn view(&self) -> StatusView {
        StatusView {
            branch: opt_view(self.branch),
            upstream: opt_view(self.upstream),
            ahead: self.ahead,
            behind: self.behind,
            dirty: self.dirty as nat}
    }
}

pub open spec fn head_prefix() -> Seq<char> {
    "# branch.head "@
}

pub open spec fn upstream_prefix() -> Seq<char> {
    "# branch.upstream "@
}

pub open spec fn ab_prefix() -> Seq<char> {
    "# branch.ab "@
}

/// The pieces of a `# branch.ab` line after the prefix, split at whitespace. The non-empty
/// ones are its fields (`str::split_whitespace`).
pub open spec fn ab_fields(line: Seq<char>) -> Seq<Seq<char>> {
    split(line.skip(ab_prefix().len() as int), Sep::Whitespace)
}

/// What one `+<n>` or `-<n>` field does to the state.
pub open spec fn apply_field(s: StatusView, field: Seq<char>) -> StatusView {
    let n = match parse_u32(field.drop_first()) {
        Some(v) => v,
        None => 0};
    if field[0] == '+' {
        StatusView { ahead: n, ..s }
    } else if field[0] == '-' {
        StatusView { behind: n, ..s }
    } else {
        s
    }
}

pub open spec fn apply_fields(s: StatusView, fields: Seq<Seq<char>>) -> StatusView
    decreases fields.len(),
{
    if fields.len() == 0 {
        s
    } else if fields.last().len() == 0 {
        apply_fields(s, fields.drop_last())
    } else {
        apply_field(apply_fields(s, fields.drop_last()), fields.last())
    }
}

/// What one line of porcelain output does to the state.
pub open spec fn apply_line(s: StatusView, line: Seq<char>) -> StatusView {
    if starts_with(line, head_prefix()) {
        let head = trim(line.skip(head_prefix().len() as int));
        if head == "(detached)"@ {
            s
        } else {
            StatusView { branch: Some(head), ..s }
        }
    } else if starts_with(line, upstream_prefix()) {
        StatusView { upstream: Some(trim(line.skip(upstream_prefix().len() as int))), ..s }
    } else if starts_with(line, ab_prefix()) {
        apply_fields(s, ab_fields(line))
    } else if !starts_with(line, "#"@) && !blank(line) {
        StatusView { dirty: s.dirty + 1, ..s }
    } else {
        s
    }
}

pub open spec fn apply_lines(lines: Seq<Seq<char>>) -> StatusView
    decreases lines.len(),
{
    if lines.len() == 0 {
        StatusView { branch: None, upstream: None, ahead: 0, behind: 0, dirty: 0 }
    } else {
        apply_line(apply_lines(lines.drop_last()), lines.last())
    }
}

/// The state that `git status --porcelain=v2 --branch` output describes.
pub open spec fn status_of(stdout: Seq<char>) -> StatusView {
    apply_lines(lines(stdout))
}

/// Every field of every `# branch.ab` line starts with an ASCII character, which the parser
/// splits off as a sign; anything else cannot be split at its first byte.
pub open spec fn parseable(stdout: Seq<char>) -> bool {
    forall|i: int|
        0 <= i < lines(stdout).len() && starts_with(#[trigger] lines(stdout)[i], ab_prefix())
            ==> forall|k: int|
            0 <= k < ab_fields(lines(stdout)[i]).len() && ab_fields(lines(stdout)[i])[k].len() > 0
                ==> (#[trigger] ab_fields(lines(stdout)[i])[k][0] as u32) < 0x80
}

// ---------------------------------------------------------------------------------------
// What the state says, in closed form
// ---------------------------------------------------------------------------------------

/// A line that reports a change: not a `#` header and not blank.
pub open spec fn is_change(line: Seq<char>) -> bool {
    !starts_with(line, "#"@) && !blank(line)
}

/// How many of the lines report a change.
pub open spec fn change_count(ls: Seq<Seq<char>>) -> nat
    decreases ls.len(),
{
    if ls.len() == 0 {
        0
    } else {
        change_count(ls.drop_last()) + if is_change(ls.last()) {
            1nat
        } else {
            0nat
        }
    }
}

/// Does any line start with `prefix`?
pub open spec fn any_line_with(ls: Seq<Seq<char>>, prefix: Seq<char>) -> bool {
    exists|i: int| 0 <= i < ls.len() && starts_with(#[trigger] ls[i], prefix)
}

proof fn lemma_apply_fields_keeps(s: StatusView, fields: Seq<Seq<char>>)
    ensures
        apply_fields(s, fields).branch == s.branch,
        apply_fields(s, fields).upstream == s.upstream,
        apply_fields(s, fields).dirty == s.dirty,
    decreases fields.len(),
{
    if fields.len() > 0 {
        lemma_apply_fields_keeps(s, fields.drop_last());
    }
}

proof fn lemma_headers_start_with_hash(line: Seq<char>)
    ensures
        starts_with(line, head_prefix()) ==> starts_with(line, "#"@),
        starts_with(line, upstream_prefix()) ==> starts_with(line, "#"@),
        starts_with(line, ab_prefix()) ==> starts_with(line, "#"@),
{
    reveal_strlit("#");
    reveal_strlit("# branch.head ");
    reveal_strlit("# branch.upstream ");
    reveal_strlit("# branch.ab ");
    if starts_with(line, head_prefix()) {
        assert(line[0] == line.take(head_prefix().len() as int)[0]);
        assert(line.take(1) =~= "#"@);
    }
    if starts_with(line, upstream_prefix()) {
        assert(line[0] == line.take(upstream_prefix().len() as int)[0]);
        assert(line.take(1) =~= "#"@);
    }
    if starts_with(line, ab_prefix()) {
        assert(line[0] == line.take(ab_prefix().len() as int)[0]);
        assert(line.take(1) =~= "#"@);
    }
}

proof fn lemma_apply_lines_closed_form(ls: Seq<Seq<char>>)
    ensures
        apply_lines(ls).dirty == change_count(ls),
        !any_line_with(ls, head_prefix()) ==> apply_lines(ls).branch is None,
        !any_line_with(ls, upstream_prefix()) ==> apply_lines(ls).upstream is None,
        !any_line_with(ls, ab_prefix()) ==> apply_lines(ls).ahead == 0 && apply_lines(ls).behind
            == 0,
    decreases ls.len(),
{
    if ls.len() > 0 {
        let before = ls.drop_last();
        let line = ls.last();
        lemma_apply_lines_closed_form(before);
        lemma_headers_start_with_hash(line);
        lemma_apply_fields_keeps(apply_lines(before), ab_fields(line));
        assert forall|prefix: Seq<char>| !any_line_with(ls, prefix) implies !any_line_with(
            before,
            prefix,
        ) && !starts_with(line, prefix) by {
            if any_line_with(before, prefix) {
                let i = choose|i: int| 0 <= i < before.len() && starts_with(#[trigger] before[i], prefix);
                assert(ls[i] == before[i]);
            }
            assert(ls[ls.len() - 1] == line);
        }
    }
}

proof fn lemma_single_head(ls: Seq<Seq<char>>, k: int)
    requires
        0 <= k < ls.len(),
        starts_with(ls[k], head_prefix()),
        forall|i: int| 0 <= i < ls.len() && i != k ==> !starts_with(#[trigger] ls[i], head_prefix()),
    ensures
        apply_lines(ls).branch == (if trim(ls[k].skip(head_prefix().len() as int)) == "(detached)"@ {
            None
        } else {
            Some(trim(ls[k].skip(head_prefix().len() as int)))
        }),
    decreases ls.len(),
{
    let before = ls.drop_last();
    let line = ls.last();
    assert(ls[ls.len() - 1] == line);
    if k == ls.len() - 1 {
        lemma_apply_lines_closed_form(before);
        assert(!any_line_with(before, head_prefix())) by {
            if any_line_with(before, head_prefix()) {
                let i = choose|i: int| 0 <= i < before.len() && starts_with(#[trigger] before[i], head_prefix());
                assert(ls[i] == before[i]);
            }
        }
    } else {
        assert forall|i: int| 0 <= i < before.len() && i != k implies !starts_with(
            #[trigger] before[i],
            head_prefix(),
        ) by {
            assert(ls[i] == before[i]);
        }
        assert(before[k] == ls[k]);
        lemma_single_head(before, k);
        lemma_apply_fields_keeps(apply_lines(before), ab_fields(line));
    }
}

/// Law: the state in closed form. The dirty count is the number of lines that are neither
/// `#` headers nor blank; with no `# branch.head` line there is no branch, with no
/// `# branch.upstream` line no upstream, and with no `# branch.ab` line nothing ahead or
/// behind.
pub proof fn law_status_counts_and_defaults(stdout: Seq<char>)
    ensures
        status_of(stdout).dirty == change_count(lines(stdout)),
        !any_line_with(lines(stdout), head_prefix()) ==> status_of(stdout).branch is None,
        !any_line_with(lines(stdout), upstream_prefix()) ==> status_of(stdout).upstream is None,
        !any_line_with(lines(stdout), ab_prefix()) ==> status_of(stdout).ahead == 0 && status_of(
            stdout,
        ).behind == 0,
{
    lemma_apply_lines_closed_form(lines(stdout));
}

/// Law: with exactly one `# branch.head` line, the branch is its trimmed text, or none when
/// that text is `(detached)`.
pub proof fn law_status_branch_from_the_head_line(stdout: Seq<char>, k: int)
    requires
        0 <= k < lines(stdout).len(),
        starts_with(lines(stdout)[k], head_prefix()),
        forall|i: int|
            0 <= i < lines(stdout).len() && i != k ==> !starts_with(
                #[trigger] lines(stdout)[i],
                head_prefix(),
            ),
    ensures
        status_of(stdout).branch == (if trim(lines(stdout)[k].skip(head_prefix().len() as int))
            == "(detached)"@ {
            None
        } else {
            Some(trim(lines(stdout)[k].skip(head_prefix().len() as int)))
        }),
{
    lemma_single_head(lines(stdout), k);
}

fn apply_ab_line(state: &mut RepoState, line: &Vec<char>)
    requires
        starts_with(line@, ab_prefix()),
        forall|k: int|
            0 <= k < ab_fields(line@).len() && ab_fields(line@)[k].len() > 0 ==> (
            #[trigger] ab_fields(line@)[k][0] as u32) < 0x80,
    ensures
        final(state)@ == apply_fields(old(state)@, ab_fields(line@)),
        final(state).dirty == old(state).dirty,
{
    proof {
        reveal_strlit("# branch.ab ");
    }
    let rest = sub_vec(line, 12, line.len());
    assert(rest@ == line@.skip(ab_prefix().len() as int));
    let pieces = split_exec(&rest, Sep::Whitespace);
    let ghost fields = ab_fields(line@);
    let ghost start = state@;
    for i in 0..pieces.len()
        invariant
            fields == views(pieces@),
            state@ == apply_fields(start, fields.take(i as int)),
            state.dirty == start.dirty,
            forall|k: int|
                0 <= k < fields.len() && fields[k].len() > 0 ==> (#[trigger] fields[k][0] as u32)
                    < 0x80,
    {
        let field = &pieces[i];
        assert(fields.take(i + 1).drop_last() == fields.take(i as int));
        assert(fields.take(i + 1).last() == field@);
        if field.len() > 0 {
            let n = match parse_u32_exec(&sub_vec(field, 1, field.len())) {
                Some(v) => v,
                None => 0};
            assert(field@.subrange(1, field@.len() as int) == field@.drop_first());
            if field[0] == '+' {
                state.ahead = n;
            } else if field[0] == '-' {
                state.behind = n;
            }
        }
    }
    assert(fields.take(pieces@.len() as int) == fields);
}

/// Are all the fields of this `# branch.ab` line led by an ASCII character?
fn ab_line_parseable(line: &Vec<char>) -> (b: bool)
    requires
        starts_with(line@, ab_prefix()),
    ensures
        b == forall|k: int|
            0 <= k < ab_fields(line@).len() && ab_fields(line@)[k].len() > 0 ==> (
            #[trigger] ab_fields(line@)[k][0] as u32) < 0x80,
{
    proof {
        reveal_strlit("# branch.ab ");
    }
    let rest = sub_vec(line, 12, line.len());
    assert(rest@ == line@.skip(ab_prefix().len() as int));
    let pieces = split_exec(&rest, Sep::Whitespace);
    for j in 0..pieces.len()
        invariant
            ab_fields(line@) == views(pieces@),
            forall|k: int|
                0 <= k < j && pieces@[k]@.len() > 0 ==> (#[trigger] pieces@[k]@[0] as u32) < 0x80,
    {
        let field = &pieces[j];
        if field.len() > 0 && field[0] as u32 >= 0x80 {
            assert(ab_fields(line@)[j as int] == field@);
            return false;
        }
    }
    assert forall|k: int|
        0 <= k < ab_fields(line@).len() && ab_fields(line@)[k].len() > 0 implies (
        #[trigger] ab_fields(line@)[k][0] as u32) < 0x80 by {
        assert(ab_fields(line@)[k] == pieces@[k]@);
    }
    true
}

/// Can [`parse_status`] read this output? It splits every field of a `# branch.ab` line at
/// its first byte, which must therefore be a whole character.
pub fn status_is_parseable(stdout: &str) -> (b: bool)
    ensures
        b == parseable(stdout@),
{
    let ls = lines_exec(&chars_of(stdout));
    let prefix = chars_of("# branch.ab ");
    for i in 0..ls.len()
        invariant
            views(ls@) == lines(stdout@),
            prefix@ == ab_prefix(),
            forall|j: int|
                0 <= j < i && starts_with(#[trigger] lines(stdout@)[j], ab_prefix()) ==> forall|
                    k: int,
                |
                    0 <= k < ab_fields(lines(stdout@)[j]).len() && ab_fields(
                        lines(stdout@)[j],
                    )[k].len() > 0 ==> (#[trigger] ab_fields(lines(stdout@)[j])[k][0] as u32)
                        < 0x80,
    {
        let line = &ls[i];
        assert(line@ == lines(stdout@)[i as int]);
        if starts_with_exec(line, &prefix) {
            if !ab_line_parseable(line) {
                return false;
            }
        }
    }
    true
}

/// Parse `git status --porcelain=v2 --branch`.
pub fn parse_status(stdout: &str) -> (state: RepoState)
    requires
        parseable(stdout@),
    ensures
        state@ == status_of(stdout@),
{
    let ls = lines_exec(&chars_of(stdout));
    let mut state = RepoState { branch: None, upstream: None, ahead: 0, behind: 0, dirty: 0 };
    let head = chars_of("# branch.head ");
    let upstream = chars_of("# branch.upstream ");
    let ab = chars_of("# branch.ab ");
    let hash = chars_of("#");
    let detached = chars_of("(detached)");
    proof {
        reveal_strlit("# branch.head ");
        reveal_strlit("# branch.upstream ");
        reveal_strlit("# branch.ab ");
    }
    for i in 0..ls.len()
        invariant
            views(ls@) == lines(stdout@),
            parseable(stdout@),
            head@ == head_prefix(),
            upstream@ == upstream_prefix(),
            ab@ == ab_prefix(),
            hash@ == "#"@,
            detached@ == "(detached)"@,
            head_prefix().len() == 14,
            upstream_prefix().len() == 18,
            ab_prefix().len() == 12,
            state@ == apply_lines(views(ls@).take(i as int)),
            state.dirty <= i,
    {
        let line = &ls[i];
        assert(views(ls@).take(i + 1).drop_last() == views(ls@).take(i as int));
        assert(views(ls@).take(i + 1).last() == line@);
        if starts_with_exec(line, &head) {
            let (a, b) = trim_bounds(line, 14, line.len());
            assert(line@.subrange(14, line@.len() as int) == line@.skip(14));
            let h = sub_vec(line, a, b);
            if !eq_chars(&h, &detached) {
                state.branch = Some(string_of(&h));
            }
        } else if starts_with_exec(line, &upstream) {
            let (a, b) = trim_bounds(line, 18, line.len());
            assert(line@.subrange(18, line@.len() as int) == line@.skip(18));
            state.upstream = Some(string_of(&sub_vec(line, a, b)));
        } else if starts_with_exec(line, &ab) {
            assert(lines(stdout@)[i as int] == line@);
            apply_ab_line(&mut state, line);
        } else if !starts_with_exec(line, &hash) && !is_blank(line) {
            state.dirty = state.dirty + 1;
        }
    }
    assert(views(ls@).take(ls@.len() as int) == views(ls@));
    state
}

/// Why this repository cannot simply be fast-forwarded, if there is a reason.
pub open spec fn blocker_text(s: StatusView) -> Option<Seq<char>> {
    if s.branch is None {
        Some("detached HEAD"@)
    } else if s.upstream is None {
        Some("no upstream branch"@)
    } else if s.dirty > 0 {
        Some(decimal(s.dirty) + if s.dirty == 1 {
            " uncommitted change"@
        } else {
            " uncommitted changes"@
        })
    } else if s.ahead > 0 {
        Some(decimal(s.ahead as nat) + if s.ahead == 1 {
            " unpushed commit"@
        } else {
            " unpushed commits"@
        })
    } else {
        None
    }
}

impl RepoState {
    /// Level with its upstream: nothing to push and nothing to pull.
    pub fn up_to_date(&self) -> (b: bool)
        ensures
            b == (self.ahead == 0 && self.behind == 0),
    {
        self.ahead == 0 && self.behind == 0
    }

    /// Why the repository must be left alone, if it must: a detached HEAD, no upstream,
    /// uncommitted work, or commits of its own that the upstream does not have.
    pub fn blocker(&self) -> (b: Option<String>)
        ensures
            opt_view(b) == blocker_text(self@),
    {
        if self.branch.is_none() {
            Some(String::from_str("detached HEAD"))
        } else if self.upstream.is_none() {
            Some(String::from_str("no upstream branch"))
        } else if self.dirty > 0 {
            let mut m = String::new();
            push_decimal(&mut m, self.dirty as u64);
            if self.dirty == 1 {
                push_str(&mut m, " uncommitted change");
            } else {
                push_str(&mut m, " uncommitted changes");
            }
            Some(m)
        } else if self.ahead > 0 {
            let mut m = String::new();
            push_decimal(&mut m, self.ahead as u64);
            if self.ahead == 1 {
                push_str(&mut m, " unpushed commit");
            } else {
                push_str(&mut m, " unpushed commits");
            }
            Some(m)
        } else {
            None
        }
    }

    /// Clean, on a branch, tracking an upstream, nothing of its own, and strictly behind:
    /// the only state in which a fast-forward is unambiguous.
    pub fn fast_forwardable(&self) -> (b: bool)
        ensures
            b == (blocker_text(self@) is None && self.behind > 0),
    {
        self.branch.is_some() && self.upstream.is_some() && self.dirty == 0 && self.ahead == 0
            && self.behind > 0
    }
}

// ---------------------------------------------------------------------------------------
// How git is run
// ---------------------------------------------------------------------------------------

/// The SSH command qeet supplies when the developer has expressed no preference.
pub open spec fn batch_mode() -> Seq<char> {
    "ssh -o BatchMode=yes"@
}

/// Decide whether to supply `GIT_SSH_COMMAND`.
///
/// The developer's own SSH configuration always wins: a non-empty `GIT_SSH_COMMAND` in the
/// environment, or `core.sshCommand` in any git config file, means qeet leaves it alone.
pub fn decide_ssh_command_for(inherited: Option<&str>, configured: bool) -> (r: Option<String>)
    ensures
        r is None <==> ((inherited matches Some(v) && v@.len() > 0) || configured),
        r matches Some(c) ==> c@ == batch_mode(),
{
    let preference = match inherited {
        Some(v) => !v.is_empty(),
        None => false};
    if preference || configured {
        return None;
    }
    Some(String::from_str("ssh -o BatchMode=yes"))
}


/// How a process ended, for a message: `code N`, or `a signal` when there is no code.
pub fn describe_status(code: Option<i32>) -> (s: String)
    ensures
        s@ == match code {
            Some(c) => "code "@ + signed_decimal(c as int),
            None => "a signal"@},
{
    match code {
        None => String::from_str("a signal"),
        Some(c) => {
            let mut s = String::from_str("code ");
            push_signed_decimal(&mut s, c);
            s
        }}
}

} // verus!
