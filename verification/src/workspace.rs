//! Where repositories go, and whether it is safe to put them there.
//!
//! Repositories land in the workspace root, grouped under their product's directory when it
//! has one. Every destination is classified *before* any git process starts. Nothing that
//! already exists is ever deleted or overwritten, and when a directory's nature cannot be
//! established, it is left alone.
//!
//! Paths are Unix paths held as strings. What needs the filesystem -- resolving symlinks,
//! listing a directory, asking git for an `origin` -- is done by the caller, which hands the
//! findings to the decisions below.
use vstd::prelude::*;

use crate::manifest::validate::{has_parent_component, has_parent_exec};
use crate::manifest::{EntryView, Product, ProductView, RepositoryEntry, group_dir_of};
use crate::remote::{UrlMatch, compare, problem_message, url_match, url_problem, validate};
use crate::text::{
    Sep, chars_of, copy_opt, copy_string, eq_chars, join, opt_view, push_chars, push_str, split,
    split_exec, views,
};

verus! {

broadcast use vstd::string::group_string_axioms;

// ---------------------------------------------------------------------------------------
// Paths
// ---------------------------------------------------------------------------------------

/// The pieces of a path that are neither empty nor `.`: the normal components, `..`
/// included.
pub open spec fn segments(pieces: Seq<Seq<char>>) -> Seq<Seq<char>>
    decreases pieces.len(),
{
    if pieces.len() == 0 {
        Seq::<Seq<char>>::empty()
    } else {
        let before = segments(pieces.drop_last());
        let p = pieces.last();
        if p.len() == 0 || p == seq!['.'] {
            before
        } else {
            before.push(p)
        }
    }
}

pub open spec fn is_absolute(p: Seq<char>) -> bool {
    p.len() > 0 && p[0] == '/'
}

/// `Path::components` of a Unix path: the root, written `/`, when the path is absolute; a
/// leading `.` when the path starts with one; then every normal component.
pub open spec fn components(p: Seq<char>) -> Seq<Seq<char>> {
    let pieces = split(p, Sep::Char('/'));
    let head = if is_absolute(p) {
        seq![seq!['/']]
    } else if pieces[0] == seq!['.'] {
        seq![seq!['.']]
    } else {
        Seq::<Seq<char>>::empty()
    };
    head + segments(pieces)
}

/// `Path::starts_with`: the components of `root` begin the components of `path`. Compared
/// component by component, so `/w/qg-evil` is not inside `/w/qg`.
pub open spec fn within(path: Seq<char>, root: Seq<char>) -> bool {
    let r = components(root);
    let c = components(path);
    r.len() <= c.len() && c.take(r.len() as int) == r
}

/// `Path::join`: an absolute `rel` replaces `root`; otherwise the two are joined by a
/// separator unless `root` already ends with one.
pub open spec fn join_path(root: Seq<char>, rel: Seq<char>) -> Seq<char> {
    if is_absolute(rel) || root.len() == 0 {
        rel
    } else if root.last() == '/' {
        root + rel
    } else {
        root + seq!['/'] + rel
    }
}

/// Does `rel` leave the directory it is joined to, by being absolute or through `..`?
pub open spec fn escapes(rel: Seq<char>) -> bool {
    is_absolute(rel) || has_parent_component(rel)
}

/// A piece of a path that is a component: neither empty nor `.`.
pub open spec fn is_segment(p: Seq<char>) -> bool {
    p.len() > 0 && p != seq!['.']
}

/// The index just past the piece holding the `n`-th component at or after `j`: where the
/// rest of a path begins once `n` of its components are consumed.
pub open spec fn after_segments(pieces: Seq<Seq<char>>, n: int, j: int) -> int
    decreases pieces.len() - j,
{
    if n <= 0 || j < 0 || j >= pieces.len() {
        j
    } else if is_segment(pieces[j]) {
        after_segments(pieces, n - 1, j + 1)
    } else {
        after_segments(pieces, n, j + 1)
    }
}

/// The first index from `lo` on, below `hi`, of a piece that is a component.
pub open spec fn skip_filler_front(pieces: Seq<Seq<char>>, lo: int, hi: int) -> int
    decreases hi - lo,
{
    if lo < hi && !is_segment(pieces[lo]) {
        skip_filler_front(pieces, lo + 1, hi)
    } else {
        lo
    }
}

/// `hi` moved back, not below `lo`, past the trailing pieces that are not components.
pub open spec fn skip_filler_back(pieces: Seq<Seq<char>>, lo: int, hi: int) -> int
    decreases hi - lo,
{
    if lo < hi && !is_segment(pieces[hi - 1]) {
        skip_filler_back(pieces, lo, hi - 1)
    } else {
        hi
    }
}

/// How a destination is shown: when it lies inside the root, the rest of it after the
/// root's components, as written, without leading or trailing separators and `.` pieces
/// (`Path::strip_prefix`); as it is otherwise. With a root of no components the head of
/// the destination -- its `/` or leading `.` -- is kept and only its tail is trimmed.
pub open spec fn display_of(root: Seq<char>, destination: Seq<char>) -> Seq<char> {
    if !within(destination, root) {
        destination
    } else {
        let pieces = split(destination, Sep::Char('/'));
        let head: int = if is_absolute(destination) || pieces[0] == seq!['.'] {
            1
        } else {
            0
        };
        if components(root).len() == 0 {
            let hi = skip_filler_back(pieces, head, pieces.len() as int);
            if is_absolute(destination) && hi == 1 {
                seq!['/']
            } else {
                join(pieces.subrange(0, hi), seq!['/'])
            }
        } else {
            let j = after_segments(pieces, components(root).len() - head, 0);
            let lo = skip_filler_front(pieces, j, pieces.len() as int);
            let hi = skip_filler_back(pieces, lo, pieces.len() as int);
            join(pieces.subrange(lo, hi), seq!['/'])
        }
    }
}

proof fn lemma_split_slash_concat(a: Seq<char>, b: Seq<char>)
    ensures
        split(a + seq!['/'] + b, Sep::Char('/')) == split(a, Sep::Char('/')) + split(
            b,
            Sep::Char('/'),
        ),
    decreases b.len(),
{
    let sep = Sep::Char('/');
    let s = a + seq!['/'] + b;
    if b.len() == 0 {
        assert(s.drop_last() =~= a);
        assert(split(s, sep) =~= split(a, sep) + split(b, sep));
    } else {
        lemma_split_slash_concat(a, b.drop_last());
        assert(s.drop_last() =~= a + seq!['/'] + b.drop_last());
        crate::text::lemma_split_nonempty(b.drop_last(), sep);
        let x = split(a, sep);
        let y = split(b.drop_last(), sep);
        if b.last() == '/' {
            assert(split(s, sep) =~= x + y.push(Seq::<char>::empty()));
        } else {
            assert(split(s, sep) =~= x + y.update(y.len() - 1, y.last().push(b.last())));
        }
    }
}

proof fn lemma_segments_concat(x: Seq<Seq<char>>, y: Seq<Seq<char>>)
    ensures
        segments(x + y) == segments(x) + segments(y),
    decreases y.len(),
{
    if y.len() == 0 {
        assert(x + y =~= x);
        assert(segments(x) + segments(y) =~= segments(x));
    } else {
        lemma_segments_concat(x, y.drop_last());
        assert((x + y).drop_last() =~= x + y.drop_last());
        assert((x + y).last() == y.last());
        if !(y.last().len() == 0 || y.last() == seq!['.']) {
            assert(segments(x) + segments(y) =~= (segments(x) + segments(y.drop_last())).push(
                y.last(),
            ));
        }
    }
}

/// Law: a relative path with no `..` in it, joined to an absolute root, lies inside that
/// root -- the syntactic half of the containment check.
pub proof fn law_contained_paths_stay_inside(root: Seq<char>, rel: Seq<char>)
    requires
        is_absolute(root),
        !escapes(rel),
    ensures
        within(join_path(root, rel), root),
{
    let sep = Sep::Char('/');
    let j = join_path(root, rel);
    let base = if root.last() == '/' {
        root.drop_last()
    } else {
        root
    };
    assert(j =~= base + seq!['/'] + rel);
    lemma_split_slash_concat(base, rel);
    lemma_segments_concat(split(base, sep), split(rel, sep));
    crate::text::lemma_split_nonempty(base, sep);
    assert(is_absolute(j)) by {
        if base.len() > 0 {
            assert(j[0] == base[0]);
        }
    }
    if root.last() == '/' {
        assert(root =~= base + seq!['/'] + Seq::<char>::empty());
        lemma_split_slash_concat(base, Seq::<char>::empty());
        lemma_segments_concat(split(base, sep), split(Seq::<char>::empty(), sep));
        let e = split(Seq::<char>::empty(), sep);
        assert(e =~= seq![Seq::<char>::empty()]);
        assert(e.drop_last() =~= Seq::<Seq<char>>::empty());
        assert(e.last().len() == 0);
        assert(segments(e.drop_last()) =~= Seq::<Seq<char>>::empty());
        assert(segments(e) =~= Seq::<Seq<char>>::empty());
        assert(segments(split(root, sep)) =~= segments(split(base, sep)));
    }
    let r = components(root);
    let c = components(j);
    assert(c =~= r + segments(split(rel, sep)));
    assert(c.take(r.len() as int) =~= r);
}

/// A relative path made only of normal components: every piece between its `/`s is a name,
/// neither empty, `.` nor `..`.
pub open spec fn plain_relative(rel: Seq<char>) -> bool {
    forall|k: int|
        0 <= k < split(rel, Sep::Char('/')).len() ==> is_segment(
            #[trigger] split(rel, Sep::Char('/'))[k],
        ) && split(rel, Sep::Char('/'))[k] != seq!['.', '.']
}

proof fn lemma_segments_single(p: Seq<char>)
    ensures
        segments(seq![p]) == (if is_segment(p) {
            seq![p]
        } else {
            Seq::<Seq<char>>::empty()
        }),
{
    assert(seq![p].drop_last() =~= Seq::<Seq<char>>::empty());
    assert(segments(Seq::<Seq<char>>::empty()) =~= Seq::<Seq<char>>::empty());
    assert(seq![p].last() == p);
    if is_segment(p) {
        assert(Seq::<Seq<char>>::empty().push(p) =~= seq![p]);
    }
}

/// Consuming the components of `a[j..]` from `a + b` stops inside `a`, after which only
/// pieces that are no components remain of `a`.
proof fn lemma_after_own_segments(a: Seq<Seq<char>>, b: Seq<Seq<char>>, j: int)
    requires
        0 <= j <= a.len(),
    ensures
        j <= after_segments(a + b, segments(a.skip(j)).len() as int, j) <= a.len(),
        forall|k: int|
            after_segments(a + b, segments(a.skip(j)).len() as int, j) <= k < a.len()
                ==> !is_segment(#[trigger] a[k]),
    decreases a.len() - j,
{
    let rest = a.skip(j);
    if j < a.len() {
        assert(rest =~= seq![a[j]] + a.skip(j + 1));
        lemma_segments_concat(seq![a[j]], a.skip(j + 1));
        lemma_segments_single(a[j]);
        lemma_after_own_segments(a, b, j + 1);
        assert((a + b)[j] == a[j]);
        if segments(rest).len() == 0 {
            assert forall|k: int| j <= k < a.len() implies !is_segment(#[trigger] a[k]) by {
                if is_segment(a[k]) {
                    lemma_segment_counted(a, j, k);
                }
            }
        }
    }
}

/// A component at `k` of `a[j..]` is counted among its segments.
proof fn lemma_segment_counted(a: Seq<Seq<char>>, j: int, k: int)
    requires
        0 <= j <= k < a.len(),
        is_segment(a[k]),
    ensures
        segments(a.skip(j)).len() > 0,
    decreases k - j,
{
    assert(a.skip(j) =~= seq![a[j]] + a.skip(j + 1));
    lemma_segments_concat(seq![a[j]], a.skip(j + 1));
    lemma_segments_single(a[j]);
    if k > j {
        lemma_segment_counted(a, j + 1, k);
    }
}

proof fn lemma_skip_filler_to(p: Seq<Seq<char>>, lo: int, m: int)
    requires
        0 <= lo <= m < p.len(),
        is_segment(p[m]),
        forall|k: int| lo <= k < m ==> !is_segment(#[trigger] p[k]),
    ensures
        skip_filler_front(p, lo, p.len() as int) == m,
    decreases m - lo,
{
    if lo < m {
        lemma_skip_filler_to(p, lo + 1, m);
    }
}

/// Law: a destination joined from an absolute root and a relative path of normal
/// components is shown as that relative path, exactly as written.
pub proof fn law_plain_destination_is_shown_as_written(root: Seq<char>, rel: Seq<char>)
    requires
        is_absolute(root),
        plain_relative(rel),
    ensures
        display_of(root, join_path(root, rel)) == rel,
{
    let sep = Sep::Char('/');
    let b = split(rel, sep);
    crate::text::lemma_split_nonempty(rel, sep);
    assert(is_segment(b[0]));
    assert(rel.len() > 0) by {
        if rel.len() == 0 {
            assert(b =~= seq![Seq::<char>::empty()]);
        }
    }
    assert(!is_absolute(rel)) by {
        if is_absolute(rel) {
            crate::text::lemma_split_leading_sep(rel, '/');
        }
    }
    assert(!has_parent_component(rel)) by {
        if has_parent_component(rel) {
            let k = choose|k: int| 0 <= k < split(rel, Sep::Char('/')).len() && #[trigger] split(rel, Sep::Char('/'))[k] == ".."@;
            reveal_strlit("..");
            assert(".."@ =~= seq!['.', '.']);
        }
    }
    law_contained_paths_stay_inside(root, rel);
    let j = join_path(root, rel);
    let base = if root.last() == '/' {
        root.drop_last()
    } else {
        root
    };
    assert(j =~= base + seq!['/'] + rel);
    lemma_split_slash_concat(base, rel);
    let a = split(base, sep);
    let p = a + b;
    assert(split(j, sep) == p);
    assert(is_absolute(j)) by {
        if base.len() > 0 {
            assert(j[0] == base[0]);
        }
    }
    if root.last() == '/' {
        assert(root =~= base + seq!['/'] + Seq::<char>::empty());
        lemma_split_slash_concat(base, Seq::<char>::empty());
        lemma_segments_concat(a, split(Seq::<char>::empty(), sep));
        let e = split(Seq::<char>::empty(), sep);
        assert(e =~= seq![Seq::<char>::empty()]);
        assert(e.drop_last() =~= Seq::<Seq<char>>::empty());
        assert(e.last().len() == 0);
        assert(segments(e.drop_last()) =~= Seq::<Seq<char>>::empty());
        assert(segments(e) =~= Seq::<Seq<char>>::empty());
        assert(segments(split(root, sep)) =~= segments(a));
    }
    assert(components(root).len() - 1 == segments(a).len());
    assert(a.skip(0) =~= a);
    lemma_after_own_segments(a, b, 0);
    let r = after_segments(p, segments(a).len() as int, 0);
    assert forall|k: int| r <= k < a.len() implies !is_segment(#[trigger] p[k]) by {
        assert(p[k] == a[k]);
    }
    assert(p[a.len() as int] == b[0]);
    lemma_skip_filler_to(p, r, a.len() as int);
    let last = p.len() - 1;
    assert(p[last] == b[b.len() - 1]);
    assert(is_segment(b[b.len() - 1]));
    assert(p.subrange(a.len() as int, p.len() as int) =~= b);
    crate::text::lemma_join_split(rel, '/');
}

/// The segments of a list of pieces.
fn segments_exec(pieces: &Vec<Vec<char>>) -> (s: Vec<Vec<char>>)
    ensures
        views(s@) == segments(views(pieces@)),
{
    let dot = chars_of(".");
    proof {
        reveal_strlit(".");
    }
    let mut kept: Vec<Vec<char>> = Vec::new();
    for k in 0..pieces.len()
        invariant
            dot@ == seq!['.'],
            views(kept@) == segments(views(pieces@).take(k as int)),
    {
        let p = &pieces[k];
        assert(views(pieces@).take(k + 1).drop_last() == views(pieces@).take(k as int));
        assert(views(pieces@).take(k + 1).last() == p@);
        if !(p.len() == 0 || eq_chars(p, &dot)) {
            kept.push(crate::text::sub_vec(p, 0, p.len()));
            assert(p@.subrange(0, p@.len() as int) == p@);
            assert(views(kept@) =~= views(kept@.drop_last()).push(kept@.last()@));
        }
    }
    assert(views(pieces@).take(pieces@.len() as int) == views(pieces@));
    kept
}

/// The components of a path.
pub fn path_components(p: &str) -> (c: Vec<Vec<char>>)
    ensures
        views(c@) == components(p@),
{
    let v = chars_of(p);
    let pieces = split_exec(&v, Sep::Char('/'));
    proof {
        crate::text::lemma_split_nonempty(p@, Sep::Char('/'));
        reveal_strlit(".");
        reveal_strlit("/");
        assert("."@ =~= seq!['.']);
    }
    let mut c: Vec<Vec<char>> = Vec::new();
    if v.len() > 0 && v[0] == '/' {
        c.push(chars_of("/"));
        assert(c@[0]@ =~= seq!['/']);
        assert(views(c@) =~= seq![seq!['/']]);
    } else if eq_chars(&pieces[0], &chars_of(".")) {
        c.push(chars_of("."));
        assert(c@[0]@ =~= seq!['.']);
        assert(views(c@) =~= seq![seq!['.']]);
    } else {
        assert(views(c@) =~= Seq::<Seq<char>>::empty());
    }
    let ghost head = views(c@);
    let mut rest = segments_exec(&pieces);
    c.append(&mut rest);
    assert(views(c@) =~= head + segments(views(pieces@)));
    assert(views(pieces@)[0] == pieces@[0]@);
    c
}

/// Do the components of `root` begin those of `path`?
pub fn is_within(path: &str, root: &str) -> (b: bool)
    ensures
        b == within(path@, root@),
{
    let c = path_components(path);
    let r = path_components(root);
    if r.len() > c.len() {
        return false;
    }
    for k in 0..r.len()
        invariant
            r.len() <= c.len(),
            views(c@) == components(path@),
            views(r@) == components(root@),
            forall|x: int| 0 <= x < k ==> #[trigger] c@[x]@ == r@[x]@,
    {
        if !eq_chars(&c[k], &r[k]) {
            assert(components(path@).take(r@.len() as int)[k as int] != components(root@)[k as int]);
            return false;
        }
    }
    assert(components(path@).take(r@.len() as int) =~= components(root@));
    true
}

/// `Path::join` on strings.
pub fn join_paths(root: &str, rel: &str) -> (p: String)
    ensures
        p@ == join_path(root@, rel@),
{
    let r = chars_of(root);
    let l = chars_of(rel);
    if (l.len() > 0 && l[0] == '/') || r.len() == 0 {
        return String::from_str(rel);
    }
    let mut p = String::from_str(root);
    if r[r.len() - 1] != '/' {
        push_str(&mut p, "/");
        proof {
            reveal_strlit("/");
        }
    }
    push_str(&mut p, rel);
    p
}

/// Does `rel` leave the directory it is joined to?
pub fn escapes_root(rel: &String) -> (b: bool)
    ensures
        b == escapes(rel@),
{
    let l = chars_of(rel.as_str());
    (l.len() > 0 && l[0] == '/') || has_parent_exec(rel)
}

fn piece_is_segment(p: &Vec<char>) -> (b: bool)
    ensures
        b == is_segment(p@),
{
    if p.len() == 0 {
        return false;
    }
    let dot = p.len() == 1 && p[0] == '.';
    proof {
        if p@ == seq!['.'] {
            assert(p@[0] == '.');
        }
        if dot {
            assert(p@ =~= seq!['.']);
        }
    }
    !dot
}

/// The pieces `lo..hi` joined by `/`.
fn join_pieces(pieces: &Vec<Vec<char>>, lo: usize, hi: usize) -> (s: String)
    requires
        lo <= hi <= pieces@.len(),
    ensures
        s@ == join(views(pieces@).subrange(lo as int, hi as int), seq!['/']),
{
    let ghost rest = views(pieces@).subrange(lo as int, hi as int);
    let mut s = String::new();
    proof {
        reveal_strlit("/");
    }
    for k in lo..hi
        invariant
            lo <= hi <= pieces@.len(),
            rest == views(pieces@).subrange(lo as int, hi as int),
            s@ == join(rest.take(k - lo), seq!['/']),
    {
        assert(rest.take(k - lo + 1).drop_last() == rest.take(k - lo));
        assert(rest.take(k - lo + 1).last() == pieces@[k as int]@);
        if k > lo {
            push_str(&mut s, "/");
            proof {
                reveal_strlit("/");
            }
        }
        push_chars(&mut s, &pieces[k], 0, pieces[k].len());
        assert(pieces@[k as int]@.subrange(0, pieces@[k as int]@.len() as int) == pieces@[k as int]@);
    }
    assert(rest.take(hi - lo) == rest);
    s
}

/// A destination as shown to the user.
pub fn display_path(root: &str, destination: &str) -> (s: String)
    ensures
        s@ == display_of(root@, destination@),
{
    if !is_within(destination, root) {
        return String::from_str(destination);
    }
    let v = chars_of(destination);
    let pieces = split_exec(&v, Sep::Char('/'));
    let ghost ps = views(pieces@);
    proof {
        crate::text::lemma_split_nonempty(destination@, Sep::Char('/'));
        assert(ps.len() == pieces@.len());
    }
    let absolute = v.len() > 0 && v[0] == '/';
    let dot = pieces[0].len() == 1 && pieces[0][0] == '.';
    proof {
        if ps[0] == seq!['.'] {
            assert(ps[0][0] == '.');
        }
        if dot {
            assert(ps[0] =~= seq!['.']);
        }
    }
    let head: usize = if absolute || dot {
        1
    } else {
        0
    };
    let r = path_components(root).len();
    let n = pieces.len();
    if r == 0 {
        let mut hi = n;
        proof {
            assert(ps.len() >= 1);
        }
        while hi > head && !piece_is_segment(&pieces[hi - 1])
            invariant
                head <= hi <= n,
                n == ps.len(),
                ps == views(pieces@),
                skip_filler_back(ps, head as int, n as int) == skip_filler_back(
                    ps,
                    head as int,
                    hi as int,
                ),
            decreases hi,
        {
            hi = hi - 1;
        }
        if absolute && hi == 1 {
            proof {
                reveal_strlit("/");
                assert("/"@ =~= seq!['/']);
            }
            return String::from_str("/");
        }
        return join_pieces(&pieces, 0, hi);
    }
    let mut left: usize = r - head;
    let mut j: usize = 0;
    while left > 0 && j < n
        invariant
            j <= n,
            n == ps.len(),
            ps == views(pieces@),
            after_segments(ps, r - head, 0) == after_segments(ps, left as int, j as int),
        decreases n - j,
    {
        if piece_is_segment(&pieces[j]) {
            left = left - 1;
        }
        j = j + 1;
    }
    let mut lo = j;
    while lo < n && !piece_is_segment(&pieces[lo])
        invariant
            j <= lo <= n,
            n == ps.len(),
            ps == views(pieces@),
            skip_filler_front(ps, j as int, n as int) == skip_filler_front(ps, lo as int, n as int),
        decreases n - lo,
    {
        lo = lo + 1;
    }
    let mut hi = n;
    while hi > lo && !piece_is_segment(&pieces[hi - 1])
        invariant
            lo <= hi <= n,
            n == ps.len(),
            ps == views(pieces@),
            skip_filler_back(ps, lo as int, n as int) == skip_filler_back(ps, lo as int, hi as int),
        decreases hi,
    {
        hi = hi - 1;
    }
    join_pieces(&pieces, lo, hi)
}

// ---------------------------------------------------------------------------------------
// Decisions
// ---------------------------------------------------------------------------------------

/// What should happen to one destination.
#[derive(Debug, Clone, PartialEq, Eq)]
pub enum State {
    /// Nothing is there. qeet creates it, and therefore owns it: if the clone fails, the
    /// directory it created is removed again.
    Create,
    /// The directory exists and is empty. git can clone into it, but qeet did not create
    /// it and will not remove it.
    FillEmpty,
    /// The repository is already here and its `origin` is the one we would have cloned.
    /// Nothing to do -- this is what makes re-running `qeet clone` safe.
    AlreadyPresent,
    /// Refused. Nothing is read further, written, or removed.
    Blocked(Blocked),
}

/// Why a destination was refused. Each variant names the evidence, so the developer can
/// check the conclusion themselves.
#[derive(Debug, Clone, PartialEq, Eq)]
pub enum Blocked {
    /// A git repository, but pointing somewhere else.
    DifferentRepository { origin: String, expected: String },
    /// A git repository whose identity could not be established with confidence. Treated
    /// as blocking, because assuming "same repository" is the one wrong guess that could
    /// lose a developer's work.
    UnverifiableRepository { origin: Option<String> },
    /// Occupied by something that is not a git repository.
    NotARepository,
    /// Occupied by a file, or by something that is not a directory at all.
    NotADirectory,
    /// The destination resolves outside the workspace -- via `..`, an absolute path, or a
    /// symlinked parent.
    OutsideWorkspace { resolved: String },
    /// The path could not be inspected, e.g. a dangling symlink or a permission error.
    Unreadable { reason: String },
    /// The URL is not one qeet will hand to git. Should be unreachable for a validated
    /// manifest; kept because URLs are treated as untrusted at every layer.
    UnusableUrl { reason: String },
}

pub enum BlockedView {
    DifferentRepository { origin: Seq<char>, expected: Seq<char> },
    UnverifiableRepository { origin: Option<Seq<char>> },
    NotARepository,
    NotADirectory,
    OutsideWorkspace { resolved: Seq<char> },
    Unreadable { reason: Seq<char> },
    UnusableUrl { reason: Seq<char> },
}

impl View for Blocked {
    type V = BlockedView;

    open spec fn view(&self) -> BlockedView {
        match self {
            Blocked::DifferentRepository { origin, expected } => BlockedView::DifferentRepository {
                origin: origin@,
                expected: expected@,
            },
            Blocked::UnverifiableRepository { origin } => BlockedView::UnverifiableRepository {
                origin: opt_view(*origin),
            },
            Blocked::NotARepository => BlockedView::NotARepository,
            Blocked::NotADirectory => BlockedView::NotADirectory,
            Blocked::OutsideWorkspace { resolved } => BlockedView::OutsideWorkspace {
                resolved: resolved@,
            },
            Blocked::Unreadable { reason } => BlockedView::Unreadable { reason: reason@ },
            Blocked::UnusableUrl { reason } => BlockedView::UnusableUrl { reason: reason@ },
        }
    }
}

pub enum StateView {
    Create,
    FillEmpty,
    AlreadyPresent,
    Blocked(BlockedView),
}

impl View for State {
    type V = StateView;

    open spec fn view(&self) -> StateView {
        match self {
            State::Create => StateView::Create,
            State::FillEmpty => StateView::FillEmpty,
            State::AlreadyPresent => StateView::AlreadyPresent,
            State::Blocked(b) => StateView::Blocked(b@),
        }
    }
}

impl State {
    /// Did qeet create this directory, and may it therefore clean it up on failure?
    pub fn owns_destination(&self) -> (b: bool)
        ensures
            b == (self is Create),
    {
        match self {
            State::Create => true,
            _ => false,
        }
    }
}

/// What a refusal says.
pub open spec fn blocked_text(b: BlockedView) -> Seq<char> {
    match b {
        BlockedView::DifferentRepository { origin, expected } =>
            "a different repository is already here\n  found:    "@ + origin + "\n  expected: "@
            + expected,
        BlockedView::UnverifiableRepository { origin } => match origin {
            Some(o) =>
                "a git repository is already here, but qeet cannot confirm it is the same one\n  found: "@
                + o,
            None => "a git repository is already here, but it has no `origin` remote"@,
        },
        BlockedView::NotARepository => "the directory is not empty and is not a git repository"@,
        BlockedView::NotADirectory => "something that is not a directory is in the way"@,
        BlockedView::OutsideWorkspace { resolved } => "resolves outside the workspace, to "@
            + resolved,
        BlockedView::Unreadable { reason } => "cannot be inspected: "@ + reason,
        BlockedView::UnusableUrl { reason } => "the repository URL is not usable: "@ + reason,
    }
}

/// The single most useful next step for a refusal.
pub open spec fn blocked_guidance(b: BlockedView) -> Seq<char> {
    match b {
        BlockedView::DifferentRepository { .. } =>
            "Move or rename that directory, or point the manifest at the right repository."@,
        BlockedView::UnverifiableRepository { .. } =>
            "Check that repository's `origin`, then move it aside if it is not the one you want."@,
        BlockedView::NotARepository | BlockedView::NotADirectory =>
            "Move or remove what is in the way, then run qeet again."@,
        BlockedView::OutsideWorkspace { .. } =>
            "Fix the `path` for this repository in the manifest."@,
        BlockedView::Unreadable { .. } =>
            "Check the path's permissions and whether it is a broken symlink."@,
        BlockedView::UnusableUrl { .. } => "Fix the `url` for this repository in the manifest."@,
    }
}

fn with_prefix(prefix: &str, rest: &str) -> (s: String)
    ensures
        s@ == prefix@ + rest@,
{
    let mut s = String::from_str(prefix);
    push_str(&mut s, rest);
    s
}

impl Blocked {
    /// What the refusal says.
    pub fn message(&self) -> (m: String)
        ensures
            m@ == blocked_text(self@),
    {
        match self {
            Blocked::DifferentRepository { origin, expected } => {
                let mut m = with_prefix(
                    "a different repository is already here\n  found:    ",
                    origin.as_str(),
                );
                push_str(&mut m, "\n  expected: ");
                push_str(&mut m, expected.as_str());
                m
            },
            Blocked::UnverifiableRepository { origin } => match origin {
                Some(o) => with_prefix(
                    "a git repository is already here, but qeet cannot confirm it is the same one\n  found: ",
                    o.as_str(),
                ),
                None => String::from_str(
                    "a git repository is already here, but it has no `origin` remote",
                ),
            },
            Blocked::NotARepository => String::from_str(
                "the directory is not empty and is not a git repository",
            ),
            Blocked::NotADirectory => String::from_str(
                "something that is not a directory is in the way",
            ),
            Blocked::OutsideWorkspace { resolved } => with_prefix(
                "resolves outside the workspace, to ",
                resolved.as_str(),
            ),
            Blocked::Unreadable { reason } => with_prefix("cannot be inspected: ", reason.as_str()),
            Blocked::UnusableUrl { reason } => with_prefix(
                "the repository URL is not usable: ",
                reason.as_str(),
            ),
        }
    }

    /// The single most useful next step for this kind of block.
    pub fn guidance(&self) -> (g: &'static str)
        ensures
            g@ == blocked_guidance(self@),
    {
        match self {
            Blocked::DifferentRepository { .. } =>
                "Move or rename that directory, or point the manifest at the right repository.",
            Blocked::UnverifiableRepository { .. } =>
                "Check that repository's `origin`, then move it aside if it is not the one you want.",
            Blocked::NotARepository | Blocked::NotADirectory =>
                "Move or remove what is in the way, then run qeet again.",
            Blocked::OutsideWorkspace { .. } => "Fix the `path` for this repository in the manifest.",
            Blocked::Unreadable { .. } =>
                "Check the path's permissions and whether it is a broken symlink.",
            Blocked::UnusableUrl { .. } => "Fix the `url` for this repository in the manifest.",
        }
    }
}


// ---------------------------------------------------------------------------------------
// Planning
// ---------------------------------------------------------------------------------------

/// One repository, resolved to a destination and a decision.
#[derive(Debug, Clone)]
pub struct Plan {
    pub name: String,
    pub url: String,
    pub git_ref: Option<String>,
    /// Absolute path git will be pointed at.
    pub destination: String,
    /// Destination relative to the workspace root, for display.
    pub display: String,
    pub state: State,
}

/// The directory `qeet clone` writes into, already resolved to its real path.
#[derive(Debug, Clone)]
pub struct Workspace {
    root: String,
}

impl View for Workspace {
    type V = Seq<char>;

    closed spec fn view(&self) -> Seq<char> {
        self.root@
    }
}

/// Where an entry lands relative to the workspace: at its `path`, else at its name, under
/// the product's directory when it has one. A `path` override is relative to that same
/// directory, so the grouping always holds.
pub open spec fn relative_of(p: ProductView, e: EntryView) -> Seq<char> {
    let within = match e.path {
        Some(path) => path,
        None => e.name,
    };
    match group_dir_of(p) {
        Some(dir) => dir + seq!['/'] + within,
        None => within,
    }
}

/// `base` with each of `tail` joined on in turn: `PathBuf::extend`.
pub open spec fn extended(base: Seq<char>, tail: Seq<Seq<char>>) -> Seq<char>
    decreases tail.len(),
{
    if tail.len() == 0 {
        base
    } else {
        join_path(extended(base, tail.drop_last()), tail.last())
    }
}

/// The outcome of the containment check, from the real path of the deepest existing
/// ancestor of a destination (or why it could not be had) and the names below it.
pub open spec fn containment(
    root: Seq<char>,
    existing: Result<Seq<char>, Seq<char>>,
    tail: Seq<Seq<char>>,
) -> Option<BlockedView> {
    match existing {
        Err(reason) => Some(BlockedView::Unreadable { reason }),
        Ok(found) => {
            let resolved = extended(found, tail);
            if within(resolved, root) {
                None
            } else {
                Some(BlockedView::OutsideWorkspace { resolved })
            }
        },
    }
}

pub open spec fn result_view(r: Result<String, String>) -> Result<Seq<char>, Seq<char>> {
    match r {
        Ok(s) => Ok(s@),
        Err(e) => Err(e@),
    }
}

pub open spec fn string_views(v: Seq<String>) -> Seq<Seq<char>> {
    v.map_values(|s: String| s@)
}

/// A plan as a value of the specification.
pub struct PlanView {
    pub name: Seq<char>,
    pub url: Seq<char>,
    pub git_ref: Option<Seq<char>>,
    pub destination: Seq<char>,
    pub display: Seq<char>,
    pub state: StateView,
}

impl View for Plan {
    type V = PlanView;

    open spec fn view(&self) -> PlanView {
        PlanView {
            name: self.name@,
            url: self.url@,
            git_ref: opt_view(self.git_ref),
            destination: self.destination@,
            display: self.display@,
            state: self.state@,
        }
    }
}

/// Where an entry of a product lands relative to the workspace.
pub fn relative_destination(product: &Product, entry: &RepositoryEntry) -> (r: String)
    ensures
        r@ == relative_of(product@, entry@),
{
    let within = match &entry.path {
        Some(path) => copy_string(path),
        None => copy_string(&entry.name),
    };
    match product.group_dir() {
        Some(dir) => {
            let mut r = String::from_str(dir);
            push_str(&mut r, "/");
            push_str(&mut r, within.as_str());
            proof {
                reveal_strlit("/");
            }
            r
        },
        None => within,
    }
}

impl Workspace {
    /// A workspace rooted at `root`, which the caller has resolved to its real, absolute
    /// path, so that containment checks compare real paths.
    pub fn at_resolved(root: String) -> (w: Workspace)
        ensures
            w@ == root@,
    {
        Workspace { root }
    }

    pub fn root(&self) -> (r: &str)
        ensures
            r@ == self@,
    {
        self.root.as_str()
    }

    /// Where a relative destination lands: the root joined with it. A destination that
    /// leaves the workspace syntactically, by being absolute or through `..`, is refused
    /// before the filesystem is consulted.
    pub fn candidate_for(&self, relative: &str) -> (r: Result<String, Blocked>)
        ensures
            match r {
                Ok(c) => !escapes(relative@) && c@ == join_path(self@, relative@),
                Err(b) => escapes(relative@) && b@ == (BlockedView::OutsideWorkspace {
                    resolved: join_path(self@, relative@),
                }),
            },
    {
        let candidate = join_paths(self.root.as_str(), relative);
        if escapes_root(&String::from_str(relative)) {
            return Err(Blocked::OutsideWorkspace { resolved: candidate });
        }
        Ok(candidate)
    }

    /// The second half of the containment check: the deepest existing ancestor of a
    /// destination, resolved through any symlinks, with the names below it joined back on,
    /// must still lie inside the root. This catches a symlinked parent directory, which the
    /// syntactic check cannot see.
    pub fn confirm_inside(&self, existing: Result<String, String>, tail: &Vec<String>) -> (r: Result<(), Blocked>)
        ensures
            match r {
                Ok(()) => containment(self@, result_view(existing), string_views(tail@)) is None,
                Err(b) => containment(self@, result_view(existing), string_views(tail@)) == Some(b@),
            },
    {
        match existing {
            Err(reason) => Err(Blocked::Unreadable { reason }),
            Ok(found) => {
                let ghost names = string_views(tail@);
                let mut resolved = found;
                for k in 0..tail.len()
                    invariant
                        names == string_views(tail@),
                        resolved@ == extended(result_view(existing)->Ok_0, names.take(k as int)),
                {
                    assert(names.take(k + 1).drop_last() == names.take(k as int));
                    resolved = join_paths(resolved.as_str(), tail[k].as_str());
                }
                assert(names.take(tail@.len() as int) == names);
                if is_within(resolved.as_str(), self.root.as_str()) {
                    Ok(())
                } else {
                    Err(Blocked::OutsideWorkspace { resolved })
                }
            },
        }
    }

    /// The plan for one entry, once its state is decided. The destination is the root
    /// joined with the entry's relative destination, whatever the state.
    pub fn finish(&self, entry: &RepositoryEntry, relative: &str, url: String, state: State) -> (p: Plan)
        ensures
            p@ == (PlanView {
                name: entry.name@,
                url: url@,
                git_ref: opt_view(entry.git_ref),
                destination: join_path(self@, relative@),
                display: display_of(self@, join_path(self@, relative@)),
                state: state@,
            }),
    {
        let destination = join_paths(self.root.as_str(), relative);
        let display = display_path(self.root.as_str(), destination.as_str());
        Plan {
            name: copy_string(&entry.name),
            url,
            git_ref: copy_opt(&entry.git_ref),
            destination,
            display,
            state,
        }
    }
}


// ---------------------------------------------------------------------------------------
// Inspecting a destination
// ---------------------------------------------------------------------------------------

/// The next thing to find out about a destination, or the verdict once there is nothing
/// more to find out. The caller answers each probe with a [`Finding`].
#[derive(Debug, Clone, PartialEq, Eq)]
pub enum Probe {
    /// Is anything at the destination? Symlinks are not followed, so a symlink is detected
    /// rather than silently followed.
    Exists,
    /// Where does the destination really lead, symlinks resolved?
    Resolve,
    /// Is the real path a directory?
    IsDirectory { path: String },
    /// Is that directory empty?
    IsEmpty { path: String },
    /// Does it hold a `.git` entry?
    IsRepository { path: String },
    /// What is its `origin` remote?
    Origin { path: String },
    /// Nothing more to find out.
    Verdict(State),
}

/// What the caller found out for a probe.
#[derive(Debug, Clone, PartialEq, Eq)]
pub enum Finding {
    /// The probe could not be answered; the error's message.
    Failed(String),
    /// `Exists`: nothing is there.
    Missing,
    /// `Exists`: something is there.
    Present,
    /// `Resolve`: the real path.
    Resolved(String),
    /// `IsDirectory`, `IsEmpty`, `IsRepository`: the answer.
    Answer(bool),
    /// `Origin`: the `origin` URL, or none when the repository has no `origin`.
    Origin(Option<String>),
}

pub enum ProbeView {
    Exists,
    Resolve,
    IsDirectory { path: Seq<char> },
    IsEmpty { path: Seq<char> },
    IsRepository { path: Seq<char> },
    Origin { path: Seq<char> },
    Verdict(StateView),
}

pub enum FindingView {
    Failed(Seq<char>),
    Missing,
    Present,
    Resolved(Seq<char>),
    Answer(bool),
    Origin(Option<Seq<char>>),
}

impl View for Probe {
    type V = ProbeView;

    open spec fn view(&self) -> ProbeView {
        match self {
            Probe::Exists => ProbeView::Exists,
            Probe::Resolve => ProbeView::Resolve,
            Probe::IsDirectory { path } => ProbeView::IsDirectory { path: path@ },
            Probe::IsEmpty { path } => ProbeView::IsEmpty { path: path@ },
            Probe::IsRepository { path } => ProbeView::IsRepository { path: path@ },
            Probe::Origin { path } => ProbeView::Origin { path: path@ },
            Probe::Verdict(s) => ProbeView::Verdict(s@),
        }
    }
}

impl View for Finding {
    type V = FindingView;

    open spec fn view(&self) -> FindingView {
        match self {
            Finding::Failed(e) => FindingView::Failed(e@),
            Finding::Missing => FindingView::Missing,
            Finding::Present => FindingView::Present,
            Finding::Resolved(r) => FindingView::Resolved(r@),
            Finding::Answer(b) => FindingView::Answer(*b),
            Finding::Origin(o) => FindingView::Origin(opt_view(*o)),
        }
    }
}

/// Is `f` an answer to `p`? A directory listing or an `origin` lookup can fail, and so can
/// the first two probes; whether a path is a directory or holds `.git` is always answered.
pub open spec fn answers(p: ProbeView, f: FindingView) -> bool {
    match p {
        ProbeView::Exists => f is Missing || f is Present || f is Failed,
        ProbeView::Resolve => f is Resolved || f is Failed,
        ProbeView::IsDirectory { .. } => f is Answer,
        ProbeView::IsEmpty { .. } => f is Answer || f is Failed,
        ProbeView::IsRepository { .. } => f is Answer,
        ProbeView::Origin { .. } => f is Origin || f is Failed,
        ProbeView::Verdict(_) => true,
    }
}

pub open spec fn verdict(b: BlockedView) -> ProbeView {
    ProbeView::Verdict(StateView::Blocked(b))
}

/// The first probe for a destination that passed the containment check: a URL qeet will
/// not hand to git refuses the destination at once.
pub open spec fn first_probe_of(url: Seq<char>) -> ProbeView {
    match url_problem(url) {
        Some(p) => verdict(BlockedView::UnusableUrl { reason: problem_message(p) }),
        None => ProbeView::Exists,
    }
}

/// What follows a probe and its finding.
///
/// Nothing there: qeet creates it. Something there: it must resolve inside the workspace,
/// be a directory, and be either empty or a git repository whose `origin` names the very
/// repository that would be cloned. Anything that cannot be established blocks.
pub open spec fn next_probe(root: Seq<char>, url: Seq<char>, p: ProbeView, f: FindingView) -> ProbeView {
    match p {
        ProbeView::Verdict(s) => ProbeView::Verdict(s),
        _ => match f {
            FindingView::Failed(reason) => verdict(BlockedView::Unreadable { reason }),
            _ => match p {
                ProbeView::Exists => if f is Missing {
                    ProbeView::Verdict(StateView::Create)
                } else {
                    ProbeView::Resolve
                },
                ProbeView::Resolve => {
                    let path = f->Resolved_0;
                    if within(path, root) {
                        ProbeView::IsDirectory { path }
                    } else {
                        verdict(BlockedView::OutsideWorkspace { resolved: path })
                    }
                },
                ProbeView::IsDirectory { path } => if f->Answer_0 {
                    ProbeView::IsEmpty { path }
                } else {
                    verdict(BlockedView::NotADirectory)
                },
                ProbeView::IsEmpty { path } => if f->Answer_0 {
                    ProbeView::Verdict(StateView::FillEmpty)
                } else {
                    ProbeView::IsRepository { path }
                },
                ProbeView::IsRepository { path } => if f->Answer_0 {
                    ProbeView::Origin { path }
                } else {
                    verdict(BlockedView::NotARepository)
                },
                ProbeView::Origin { .. } => match f->Origin_0 {
                    Some(found) => match url_match(url, found) {
                        UrlMatch::Same => ProbeView::Verdict(StateView::AlreadyPresent),
                        UrlMatch::Different => verdict(
                            BlockedView::DifferentRepository { origin: found, expected: url },
                        ),
                        UrlMatch::Indeterminate => verdict(
                            BlockedView::UnverifiableRepository { origin: Some(found) },
                        ),
                    },
                    None => verdict(BlockedView::UnverifiableRepository { origin: None }),
                },
                ProbeView::Verdict(s) => ProbeView::Verdict(s),
            },
        },
    }
}

impl Workspace {
    /// The first probe for a destination that passed the containment check.
    pub fn first_probe(url: &str) -> (p: Probe)
        ensures
            p@ == first_probe_of(url@),
    {
        match validate(url) {
            Err(e) => Probe::Verdict(State::Blocked(Blocked::UnusableUrl { reason: e.message() })),
            Ok(()) => Probe::Exists,
        }
    }

    /// What follows `probe`, given what was found.
    pub fn inspect_step(&self, url: &str, probe: Probe, finding: Finding) -> (next: Probe)
        requires
            answers(probe@, finding@),
        ensures
            next@ == next_probe(self@, url@, probe@, finding@),
    {
        if let Probe::Verdict(s) = probe {
            return Probe::Verdict(s);
        }
        if let Finding::Failed(reason) = finding {
            return Probe::Verdict(State::Blocked(Blocked::Unreadable { reason }));
        }
        match probe {
            Probe::Exists => match finding {
                Finding::Missing => Probe::Verdict(State::Create),
                _ => Probe::Resolve,
            },
            Probe::Resolve => match finding {
                Finding::Resolved(path) => {
                    if is_within(path.as_str(), self.root.as_str()) {
                        Probe::IsDirectory { path }
                    } else {
                        Probe::Verdict(State::Blocked(Blocked::OutsideWorkspace { resolved: path }))
                    }
                },
                _ => Probe::Resolve,
            },
            Probe::IsDirectory { path } => match finding {
                Finding::Answer(true) => Probe::IsEmpty { path },
                _ => Probe::Verdict(State::Blocked(Blocked::NotADirectory)),
            },
            Probe::IsEmpty { path } => match finding {
                Finding::Answer(true) => Probe::Verdict(State::FillEmpty),
                _ => Probe::IsRepository { path },
            },
            Probe::IsRepository { path } => match finding {
                Finding::Answer(true) => Probe::Origin { path },
                _ => Probe::Verdict(State::Blocked(Blocked::NotARepository)),
            },
            Probe::Origin { .. } => match finding {
                Finding::Origin(Some(found)) => match compare(url, found.as_str()) {
                    UrlMatch::Same => Probe::Verdict(State::AlreadyPresent),
                    UrlMatch::Different => Probe::Verdict(
                        State::Blocked(
                            Blocked::DifferentRepository {
                                origin: found,
                                expected: String::from_str(url),
                            },
                        ),
                    ),
                    UrlMatch::Indeterminate => Probe::Verdict(
                        State::Blocked(Blocked::UnverifiableRepository { origin: Some(found) }),
                    ),
                },
                _ => Probe::Verdict(State::Blocked(Blocked::UnverifiableRepository { origin: None })),
            },
            Probe::Verdict(s) => Probe::Verdict(s),
        }
    }
}

/// What the filesystem and git hold at a destination, as the probes find it when none of
/// them fails: whether anything is there, the real path it leads to, whether that is a
/// directory, whether the directory is empty, whether it holds `.git`, and its `origin`.
pub struct Site {
    pub exists: bool,
    pub real: Seq<char>,
    pub is_dir: bool,
    pub empty: bool,
    pub has_git: bool,
    pub origin: Option<Seq<char>>,
}

/// The finding the caller reports for probe `p` at `site`.
pub open spec fn finding_at(site: Site, p: ProbeView) -> FindingView {
    match p {
        ProbeView::Exists => if site.exists {
            FindingView::Present
        } else {
            FindingView::Missing
        },
        ProbeView::Resolve => FindingView::Resolved(site.real),
        ProbeView::IsDirectory { .. } => FindingView::Answer(site.is_dir),
        ProbeView::IsEmpty { .. } => FindingView::Answer(site.empty),
        ProbeView::IsRepository { .. } => FindingView::Answer(site.has_git),
        ProbeView::Origin { .. } => FindingView::Origin(site.origin),
        ProbeView::Verdict(_) => FindingView::Missing,
    }
}

/// Where `steps` rounds of probing from `p` at `site` lead.
pub open spec fn probe_chain(root: Seq<char>, url: Seq<char>, site: Site, p: ProbeView, steps: nat) -> ProbeView
    decreases steps,
{
    if steps == 0 {
        p
    } else {
        probe_chain(root, url, site, next_probe(root, url, p, finding_at(site, p)), (steps - 1) as nat)
    }
}

/// The state of a destination, case by case in the order they are tried: an unusable URL,
/// nothing there, a real path outside the workspace, not a directory, an empty directory, no
/// `.git`, then the `origin`: none, the same repository, a different one, or one that cannot
/// be compared.
pub open spec fn site_state(root: Seq<char>, url: Seq<char>, site: Site) -> StateView {
    if url_problem(url) is Some {
        StateView::Blocked(BlockedView::UnusableUrl { reason: problem_message(url_problem(url)->0) })
    } else if !site.exists {
        StateView::Create
    } else if !within(site.real, root) {
        StateView::Blocked(BlockedView::OutsideWorkspace { resolved: site.real })
    } else if !site.is_dir {
        StateView::Blocked(BlockedView::NotADirectory)
    } else if site.empty {
        StateView::FillEmpty
    } else if !site.has_git {
        StateView::Blocked(BlockedView::NotARepository)
    } else {
        match site.origin {
            None => StateView::Blocked(BlockedView::UnverifiableRepository { origin: None }),
            Some(found) => match url_match(url, found) {
                UrlMatch::Same => StateView::AlreadyPresent,
                UrlMatch::Different => StateView::Blocked(
                    BlockedView::DifferentRepository { origin: found, expected: url },
                ),
                UrlMatch::Indeterminate => StateView::Blocked(
                    BlockedView::UnverifiableRepository { origin: Some(found) },
                ),
            },
        }
    }
}

/// Law: the inspection as a whole. Starting from [`Workspace::first_probe`] and answering
/// every probe from what is at the destination, every finding answers its probe, and within
/// six rounds of [`Workspace::inspect_step`] the verdict is reached, in the documented
/// order of cases -- and it stays the verdict after that.
pub proof fn law_inspection_order(root: Seq<char>, url: Seq<char>, site: Site, extra: nat)
    ensures
        forall|p: ProbeView| answers(p, #[trigger] finding_at(site, p)),
        probe_chain(root, url, site, first_probe_of(url), 6 + extra) == ProbeView::Verdict(
            site_state(root, url, site),
        ),
{
    assert forall|p: ProbeView| answers(p, #[trigger] finding_at(site, p)) by {}
    lemma_verdict_stays(root, url, site, ProbeView::Verdict(site_state(root, url, site)), extra);
    reveal_with_fuel(probe_chain, 7);
    let p0 = first_probe_of(url);
    if url_problem(url) is None {
        let p1 = next_probe(root, url, p0, finding_at(site, p0));
        let p2 = next_probe(root, url, p1, finding_at(site, p1));
        let p3 = next_probe(root, url, p2, finding_at(site, p2));
        let p4 = next_probe(root, url, p3, finding_at(site, p3));
        let p5 = next_probe(root, url, p4, finding_at(site, p4));
        let p6 = next_probe(root, url, p5, finding_at(site, p5));
        assert(p6 == ProbeView::Verdict(site_state(root, url, site)));
        lemma_chain_split(root, url, site, p0, 6, extra);
    } else {
        lemma_verdict_stays(root, url, site, p0, 6 + extra);
    }
}

proof fn lemma_verdict_stays(root: Seq<char>, url: Seq<char>, site: Site, p: ProbeView, steps: nat)
    requires
        p is Verdict,
    ensures
        probe_chain(root, url, site, p, steps) == p,
    decreases steps,
{
    if steps > 0 {
        lemma_verdict_stays(root, url, site, p, (steps - 1) as nat);
    }
}

proof fn lemma_chain_split(root: Seq<char>, url: Seq<char>, site: Site, p: ProbeView, a: nat, b: nat)
    ensures
        probe_chain(root, url, site, p, a + b) == probe_chain(
            root,
            url,
            site,
            probe_chain(root, url, site, p, a),
            b,
        ),
    decreases a,
{
    if a > 0 {
        lemma_chain_split(
            root,
            url,
            site,
            next_probe(root, url, p, finding_at(site, p)),
            (a - 1) as nat,
            b,
        );
        assert((a + b - 1) as nat == ((a - 1) as nat + b) as nat);
    }
}

/// Law: a destination is taken as already present only when the repository there names,
/// by its `origin`, the very repository that would be cloned; every other finding about an
/// occupied destination blocks or asks for more.
pub proof fn law_present_only_when_same_repository(
    root: Seq<char>,
    url: Seq<char>,
    p: ProbeView,
    f: FindingView,
)
    requires
        answers(p, f),
        !(p is Verdict),
        next_probe(root, url, p, f) == ProbeView::Verdict(StateView::AlreadyPresent),
    ensures
        p is Origin,
        f matches FindingView::Origin(Some(found)) && url_match(url, found) == UrlMatch::Same,
{
}

/// Law: qeet claims a destination as its own only when nothing was there.
pub proof fn law_created_only_when_nothing_was_there(
    root: Seq<char>,
    url: Seq<char>,
    p: ProbeView,
    f: FindingView,
)
    requires
        answers(p, f),
        !(p is Verdict),
        next_probe(root, url, p, f) == ProbeView::Verdict(StateView::Create),
    ensures
        p is Exists,
        f is Missing,
{
}

} // verus!
