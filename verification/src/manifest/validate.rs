//! Manifest validation.
//!
//! Everything checkable without touching the filesystem is checked here, before any
//! process is spawned, and *all* problems are reported at once -- fixing a 66-repository
//! manifest one error per run would be miserable. The filesystem half of path safety
//! (symlinks, real containment) belongs to [`crate::workspace`], which knows the root.
use vstd::prelude::*;

use super::{EntryView, Manifest, ManifestView, Product, ProductView, RepositoryEntry, group_dir_of};
use crate::remote::{Protocol, derived_url, problem_message, url_problem, validate};
use crate::text::{
    Sep, blank, chars_of, decimal, eq_chars, is_ascii_digit, is_ascii_lower, is_digit,
    is_whitespace, is_ws, join, lt_chars, push_decimal, push_str, seq_lt, split,
    split_exec, starts_with, str_is_blank, string_of, views};

verus! {

broadcast use vstd::string::group_string_axioms;

/// One problem with a manifest, addressed to the person who has to fix it.
#[derive(Debug, Clone, PartialEq, Eq)]
pub struct Issue {
    /// Where the problem is, in manifest terms: `products.id.repositories[3]`.
    pub at: String,
    pub problem: String}

/// An issue as a value of the specification: where, then what.
pub type IssueView = (Seq<char>, Seq<char>);

impl View for Issue {
    type V = IssueView;

    open spec fn view(&self) -> IssueView {
        (self.at@, self.problem@)
    }
}

pub open spec fn issue_views(v: Seq<Issue>) -> Seq<IssueView> {
    v.map_values(|i: Issue| i@)
}

/// `at: problem`.
pub open spec fn issue_line(i: IssueView) -> Seq<char> {
    i.0 + ": "@ + i.1
}

impl Issue {
    /// `at: problem`, as the issue is shown.
    pub fn message(&self) -> (m: String)
        ensures
            m@ == issue_line(self@),
    {
        let mut m = self.at.clone();
        push_str(&mut m, ": ");
        push_str(&mut m, self.problem.as_str());
        m
    }
}

fn issue(at: &String, problem: String) -> (i: Issue)
    ensures
        i@ == (at@, problem@),
{
    Issue { at: at.clone(), problem }
}

fn one(at: &String, problem: String) -> (v: Vec<Issue>)
    ensures
        issue_views(v@) == seq![(at@, problem@)],
{
    let v = vec![issue(at, problem)];
    assert(issue_views(v@) =~= seq![(at@, problem@)]);
    v
}

fn none() -> (v: Vec<Issue>)
    ensures
        issue_views(v@) == Seq::<IssueView>::empty(),
{
    let v: Vec<Issue> = Vec::new();
    assert(issue_views(v@) =~= Seq::<IssueView>::empty());
    v
}

fn append(dst: &mut Vec<Issue>, mut src: Vec<Issue>)
    ensures
        issue_views(final(dst)@) == issue_views(old(dst)@) + issue_views(src@),
{
    let ghost s = src@;
    dst.append(&mut src);
    assert(issue_views(dst@) =~= issue_views(old(dst)@) + issue_views(s));
}

// ---------------------------------------------------------------------------------------
// The rules, as a specification
// ---------------------------------------------------------------------------------------

/// Some repository has no explicit `url`, so URLs must be derived from the remote.
pub open spec fn any_derived(m: ManifestView) -> bool {
    exists|i: int, j: int|
        0 <= i < m.products.len() && 0 <= j < m.products[i].1.repositories.len()
            && (#[trigger] m.products[i].1.repositories[j]).url is None
}

pub open spec fn remote_issues(m: ManifestView) -> Seq<IssueView> {
    let host = if blank(m.host) {
        seq![("remote.host"@, "is empty"@)]
    } else {
        Seq::<IssueView>::empty()
    };
    let owner = if blank(m.owner) && any_derived(m) {
        seq![
            ("remote.owner"@,
            "is empty, but repositories without an explicit `url` need it to derive one"@),
        ]
    } else {
        Seq::<IssueView>::empty()
    };
    host + owner
}

/// Product keys are the user-facing vocabulary (`qeet clone id`), so they are held to a
/// canonical shape: lowercase, digits and internal hyphens.
pub open spec fn key_shaped(key: Seq<char>) -> bool {
    &&& forall|i: int|
        0 <= i < key.len() ==> #[trigger] is_ascii_lower(key[i]) || is_ascii_digit(key[i]) || key[i]
            == '-'
    &&& key[0] != '-'
    &&& key.last() != '-'
}

pub open spec fn key_issues(key: Seq<char>) -> Seq<IssueView> {
    if key.len() == 0 {
        seq![("products"@, "a product key is empty"@)]
    } else if !key_shaped(key) {
        seq![
            ("products."@ + key,
            "product keys must be lowercase letters, digits and internal hyphens"@),
        ]
    } else {
        Seq::<IssueView>::empty()
    }
}

/// Law: a product key made only of the characters `a` to `z`, `0` to `9` and `-`, that
/// neither starts nor ends with `-`, draws no issue; any other non-empty key draws exactly
/// the one issue naming the key and the rule, and an empty key the one saying it is empty.
pub proof fn law_canonical_keys_are_accepted(key: Seq<char>)
    ensures
        key.len() > 0 && key[0] != '-' && key[key.len() - 1] != '-' && (forall|i: int|
            0 <= i < key.len() ==> ('a' <= #[trigger] key[i] <= 'z') || ('0' <= key[i] <= '9')
                || key[i] == '-') ==> key_issues(key).len() == 0,
        key.len() > 0 && !(key[0] != '-' && key[key.len() - 1] != '-' && (forall|i: int|
            0 <= i < key.len() ==> ('a' <= #[trigger] key[i] <= 'z') || ('0' <= key[i] <= '9')
                || key[i] == '-')) ==> key_issues(key) == seq![
            ("products."@ + key,
            "product keys must be lowercase letters, digits and internal hyphens"@),
        ],
        key.len() == 0 ==> key_issues(key) == seq![("products"@, "a product key is empty"@)],
{
    if key.len() > 0 && key_shaped(key) {
        assert forall|i: int| 0 <= i < key.len() implies ('a' <= #[trigger] key[i] <= 'z') || (
        '0' <= key[i] <= '9') || key[i] == '-' by {
            assert(is_ascii_lower(key[i]) || is_ascii_digit(key[i]) || key[i] == '-');
        }
    }
}

/// The path has a `..` component.
pub open spec fn has_parent_component(path: Seq<char>) -> bool {
    exists|k: int| 0 <= k < split(path, Sep::Char('/')).len() && #[trigger] split(path, Sep::Char('/'))[k] == ".."@
}

/// Syntactic path safety for the manifest field `field`. The workspace repeats the
/// containment check against the resolved filesystem, the only place symlinks can be seen.
pub open spec fn path_issues(at: Seq<char>, field: Seq<char>, path: Seq<char>) -> Seq<IssueView> {
    if blank(path) {
        seq![(at, "`"@ + field + "` is empty"@)]
    } else if starts_with(path, "/"@) {
        seq![(at, "`"@ + field + "` must be relative, but `"@ + path + "` is absolute"@)]
    } else if has_parent_component(path) {
        seq![
            (at, "`"@ + field + "` must stay inside the workspace, but `"@ + path
                + "` contains `..`"@),
        ]
    } else {
        Seq::<IssueView>::empty()
    }
}

pub open spec fn ref_issues(at: Seq<char>, r: Seq<char>) -> Seq<IssueView> {
    if blank(r) {
        seq![(at, "`ref` is empty"@)]
    } else if r[0] == '-' {
        seq![(at, "`ref` must not start with '-': `"@ + r + "`"@)]
    } else if exists|i: int| 0 <= i < r.len() && is_ws(#[trigger] r[i]) {
        seq![(at, "`ref` must not contain whitespace: `"@ + r + "`"@)]
    } else {
        Seq::<IssueView>::empty()
    }
}

/// Law: the path check refuses exactly a blank path, an absolute one and one with a `..`
/// component, with one issue each; a `..` is named as leaving the workspace.
pub proof fn law_path_check_refuses_exactly_the_unsafe(at: Seq<char>, field: Seq<char>, path: Seq<char>)
    ensures
        path_issues(at, field, path).len() == (if !blank(path) && !starts_with(path, "/"@)
            && !has_parent_component(path) {
            0int
        } else {
            1int
        }),
        !blank(path) && !starts_with(path, "/"@) && has_parent_component(path) ==> path_issues(
            at,
            field,
            path,
        ) == seq![
            (at, "`"@ + field + "` must stay inside the workspace, but `"@ + path
                + "` contains `..`"@),
        ],
{
}

/// Law: the ref check refuses exactly a blank ref, one that starts with `-` (which git would
/// read as an option) and one with whitespace, with one issue each.
pub proof fn law_ref_check_refuses_exactly_the_unsafe(at: Seq<char>, r: Seq<char>)
    ensures
        ref_issues(at, r).len() == (if !blank(r) && r[0] != '-' && !(exists|i: int|
            0 <= i < r.len() && is_ws(#[trigger] r[i])) {
            0int
        } else {
            1int
        }),
        !blank(r) && r[0] == '-' ==> ref_issues(at, r) == seq![
            (at, "`ref` must not start with '-': `"@ + r + "`"@),
        ],
{
}

pub open spec fn derived_issues(m: ManifestView, at: Seq<char>, name: Seq<char>, protocol: Protocol) -> Seq<
    IssueView,
> {
    let d = derived_url(m.host, m.owner, name, protocol);
    match url_problem(d) {
        Some(p) => seq![
            (at, "the URL derived for "@ + protocol.spec_name() + " (`"@ + d
                + "`) is not usable: "@ + problem_message(p)),
        ],
        None => Seq::<IssueView>::empty()}
}

/// Explicit URLs, and the URLs derived for both transports, are validated: a hostile
/// `remote.host` or a repository name containing a slash would otherwise reach `git`
/// unchecked.
pub open spec fn url_issues(m: ManifestView, at: Seq<char>, e: EntryView) -> Seq<IssueView> {
    match e.url {
        Some(u) => match url_problem(u) {
            Some(p) => seq![(at, "`url` is not usable: "@ + problem_message(p))],
            None => Seq::<IssueView>::empty()},
        None => if blank(e.name) {
            Seq::<IssueView>::empty()
        } else {
            derived_issues(m, at, e.name, Protocol::Ssh) + derived_issues(
                m,
                at,
                e.name,
                Protocol::Https,
            )
        }}
}

/// Law: an explicit `url` is judged on its own -- the remote plays no part -- and gives one
/// issue, carrying the reason [`crate::remote::validate`] gives, exactly when it is not
/// usable.
pub proof fn law_explicit_url_is_judged_alone(
    m1: ManifestView,
    m2: ManifestView,
    at: Seq<char>,
    e: EntryView,
)
    requires
        e.url is Some,
    ensures
        url_issues(m1, at, e) == url_issues(m2, at, e),
        url_issues(m1, at, e) == match url_problem(e.url->0) {
            Some(p) => seq![(at, "`url` is not usable: "@ + problem_message(p))],
            None => Seq::<IssueView>::empty(),
        },
{
}

pub open spec fn name_issues(at: Seq<char>, es: Seq<EntryView>, i: int) -> Seq<IssueView> {
    if blank(es[i].name) {
        seq![(at, "`name` is empty"@)]
    } else if exists|j: int| 0 <= j < i && #[trigger] es[j].name == es[i].name {
        seq![(at, "duplicate repository `"@ + es[i].name + "` within this product"@)]
    } else {
        Seq::<IssueView>::empty()
    }
}

/// `products.<key>.repositories[<i>]`.
pub open spec fn entry_at(product_at: Seq<char>, i: int) -> Seq<char> {
    product_at + ".repositories["@ + decimal(i as nat) + "]"@
}

pub open spec fn entry_issues(m: ManifestView, product_at: Seq<char>, es: Seq<EntryView>, i: int) -> Seq<
    IssueView,
> {
    let at = entry_at(product_at, i);
    let e = es[i];
    name_issues(at, es, i) + url_issues(m, at, e) + match e.path {
        Some(p) => path_issues(at, "path"@, p),
        None => Seq::<IssueView>::empty()} + match e.git_ref {
        Some(r) => ref_issues(at, r),
        None => Seq::<IssueView>::empty()}
}

pub open spec fn entries_issues(m: ManifestView, product_at: Seq<char>, es: Seq<EntryView>, n: int) -> Seq<
    IssueView,
>
    decreases n,
{
    if n <= 0 {
        Seq::<IssueView>::empty()
    } else {
        entries_issues(m, product_at, es, n - 1) + entry_issues(m, product_at, es, n - 1)
    }
}

/// The normal components of a path: neither empty, `.` nor `..`.
pub open spec fn normal_parts(parts: Seq<Seq<char>>) -> Seq<Seq<char>>
    decreases parts.len(),
{
    if parts.len() == 0 {
        Seq::<Seq<char>>::empty()
    } else {
        let before = normal_parts(parts.drop_last());
        let p = parts.last();
        if p.len() == 0 || p == "."@ || p == ".."@ {
            before
        } else {
            before.push(p)
        }
    }
}

/// Destinations compared by path components, so `./a` and `a` are recognised as one place.
pub open spec fn normalise_destination(path: Seq<char>) -> Seq<char> {
    join(normal_parts(split(path, Sep::Char('/'))), "/"@)
}

/// Where an entry lands within its product: its `path`, else its name.
pub open spec fn destination_of(e: EntryView) -> Seq<char> {
    normalise_destination(
        match e.path {
            Some(p) => p,
            None => e.name},
    )
}

/// Where `x` goes in an ordered list: before the first element not smaller than it.
pub open spec fn position_in(sorted: Seq<Seq<char>>, x: Seq<char>) -> int
    decreases sorted.len(),
{
    if sorted.len() == 0 {
        0
    } else if seq_lt(sorted[0], x) {
        1 + position_in(sorted.drop_first(), x)
    } else {
        0
    }
}

/// Add `x` to an ordered list of distinct strings, unless it is already there.
pub open spec fn sorted_insert(sorted: Seq<Seq<char>>, x: Seq<char>) -> Seq<Seq<char>> {
    let i = position_in(sorted, x);
    if i < sorted.len() && sorted[i] == x {
        sorted
    } else {
        sorted.insert(i, x)
    }
}

/// The distinct destinations of the first `n` entries, in ascending order -- the order a
/// `BTreeMap` keyed by destination is walked in.
pub open spec fn sorted_destinations(es: Seq<EntryView>, n: int) -> Seq<Seq<char>>
    decreases n,
{
    if n <= 0 {
        Seq::<Seq<char>>::empty()
    } else {
        sorted_insert(sorted_destinations(es, n - 1), destination_of(es[n - 1]))
    }
}

/// The names of the first `n` entries that land on `d`, in manifest order.
pub open spec fn claimants(es: Seq<EntryView>, d: Seq<char>, n: int) -> Seq<Seq<char>>
    decreases n,
{
    if n <= 0 {
        Seq::<Seq<char>>::empty()
    } else if destination_of(es[n - 1]) == d {
        claimants(es, d, n - 1).push(es[n - 1].name)
    } else {
        claimants(es, d, n - 1)
    }
}

/// One issue per destination claimed by more than one repository, naming all of them.
pub open spec fn collision_issues(product_at: Seq<char>, es: Seq<EntryView>, dests: Seq<Seq<char>>) -> Seq<
    IssueView,
>
    decreases dests.len(),
{
    if dests.len() == 0 {
        Seq::<IssueView>::empty()
    } else {
        let d = dests.last();
        let c = claimants(es, d, es.len() as int);
        collision_issues(product_at, es, dests.drop_last()) + if c.len() > 1 {
            seq![
                (product_at, decimal(c.len()) + " repositories resolve to the same destination `"@
                    + d + "`: "@ + join(c, ", "@)),
            ]
        } else {
            Seq::<IssueView>::empty()
        }
    }
}

/// The issues with a product's own fields: its key, its name and its directory.
pub open spec fn product_head_issues(key: Seq<char>, p: ProductView) -> Seq<IssueView> {
    let at = "products."@ + key;
    key_issues(key) + (if blank(p.name) {
        seq![(at, "`name` is empty"@)]
    } else {
        Seq::<IssueView>::empty()
    }) + match group_dir_of(p) {
        Some(d) => path_issues(at, "directory"@, d),
        None => Seq::<IssueView>::empty()}
}

/// The issues with a product's repositories: none listed, or each entry's, then the
/// destinations they share.
pub open spec fn product_body_issues(m: ManifestView, key: Seq<char>, p: ProductView) -> Seq<IssueView> {
    let at = "products."@ + key;
    let es = p.repositories;
    if es.len() == 0 {
        seq![(at, "`repositories` is empty; a product needs at least one"@)]
    } else {
        entries_issues(m, at, es, es.len() as int) + collision_issues(
            at,
            es,
            sorted_destinations(es, es.len() as int),
        )
    }
}

pub open spec fn product_issues(m: ManifestView, key: Seq<char>, p: ProductView) -> Seq<IssueView> {
    product_head_issues(key, p) + product_body_issues(m, key, p)
}

pub open spec fn products_issues(m: ManifestView, n: int) -> Seq<IssueView>
    decreases n,
{
    if n <= 0 {
        Seq::<IssueView>::empty()
    } else {
        products_issues(m, n - 1) + product_issues(m, m.products[n - 1].0, m.products[n - 1].1)
    }
}

proof fn lemma_products_issues_step(m: ManifestView, i: int, key: Seq<char>, p: ProductView)
    requires
        0 <= i < m.products.len(),
        m.products[i] == (key, p),
    ensures
        products_issues(m, i + 1) == products_issues(m, i) + product_issues(m, key, p),
{
}

/// Every issue with a manifest, in the order they are reported: the remote, an empty
/// registry, then each product in key order.
pub open spec fn check_spec(m: ManifestView) -> Seq<IssueView> {
    remote_issues(m) + (if m.products.len() == 0 {
        seq![("products"@, "no products are defined"@)]
    } else {
        Seq::<IssueView>::empty()
    }) + products_issues(m, m.products.len() as int)
}

// ---------------------------------------------------------------------------------------
// The rules, executed
// ---------------------------------------------------------------------------------------

fn literal(s: &str) -> (v: String)
    ensures
        v@ == s@,
{
    String::from_str(s)
}

fn has_derived_entry(m: &Manifest) -> (b: bool)
    ensures
        b == any_derived(m@),
{
    for i in 0..m.products.len()
        invariant
            forall|a: int, j: int|
                0 <= a < i && 0 <= j < m@.products[a].1.repositories.len() ==> (
                #[trigger] m@.products[a].1.repositories[j]).url is Some,
    {
        let p = &m.products[i].product;
        for j in 0..p.repositories.len()
            invariant
                i < m.products@.len(),
                p == &m.products@[i as int].product,
                forall|a: int, j: int|
                    0 <= a < i && 0 <= j < m@.products[a].1.repositories.len() ==> (
                    #[trigger] m@.products[a].1.repositories[j]).url is Some,
                forall|k: int| 0 <= k < j ==> (#[trigger] p@.repositories[k]).url is Some,
        {
            if p.repositories[j].url.is_none() {
                assert(m@.products[i as int].1 == p@);
                assert(p@.repositories[j as int] == p.repositories@[j as int]@);
                assert(m@.products[i as int].1.repositories[j as int].url is None);
                return true;
            }
        }
        assert forall|a: int, j: int|
            0 <= a < i + 1 && 0 <= j < m@.products[a].1.repositories.len() implies (
            #[trigger] m@.products[a].1.repositories[j]).url is Some by {
            if a == i {
                assert(m@.products[a].1.repositories[j] == p@.repositories[j]);
            }
        }
    }
    false
}

fn remote_issues_exec(m: &Manifest) -> (v: Vec<Issue>)
    ensures
        issue_views(v@) == remote_issues(m@),
{
    let mut v = none();
    if str_is_blank(m.remote.host.as_str()) {
        append(&mut v, one(&literal("remote.host"), literal("is empty")));
    }
    if str_is_blank(m.remote.owner.as_str()) && has_derived_entry(m) {
        append(
            &mut v,
            one(
                &literal("remote.owner"),
                literal(
                    "is empty, but repositories without an explicit `url` need it to derive one",
                ),
            ),
        );
    }
    v
}

fn key_issues_exec(key: &String) -> (v: Vec<Issue>)
    ensures
        issue_views(v@) == key_issues(key@),
{
    let k = chars_of(key.as_str());
    if k.len() == 0 {
        return one(&literal("products"), literal("a product key is empty"));
    }
    let mut shaped = k[0] != '-' && k[k.len() - 1] != '-';
    let mut i: usize = 0;
    while i < k.len()
        invariant
            i <= k@.len(),
            k@ == key@,
            k@.len() > 0,
            shaped == (k@[0] != '-' && k@.last() != '-' && forall|j: int|
                0 <= j < i ==> #[trigger] is_ascii_lower(k@[j]) || is_ascii_digit(k@[j]) || k@[j]
                    == '-'),
        decreases k@.len() - i,
    {
        let c = k[i];
        if !(('a' <= c && c <= 'z') || is_digit(c) || c == '-') {
            assert(!(is_ascii_lower(k@[i as int]) || is_ascii_digit(k@[i as int]) || k@[i as int]
                == '-'));
            shaped = false;
        }
        i = i + 1;
    }
    if !shaped {
        let mut at = literal("products.");
        push_str(&mut at, key.as_str());
        return one(&at, literal("product keys must be lowercase letters, digits and internal hyphens"));
    }
    none()
}

pub(crate) fn has_parent_exec(path: &String) -> (b: bool)
    ensures
        b == has_parent_component(path@),
{
    let parts = split_exec(&chars_of(path.as_str()), Sep::Char('/'));
    let dots = chars_of("..");
    for k in 0..parts.len()
        invariant
            views(parts@) == split(path@, Sep::Char('/')),
            dots@ == ".."@,
            forall|j: int| 0 <= j < k ==> parts@[j]@ != ".."@,
    {
        if eq_chars(&parts[k], &dots) {
            assert(split(path@, Sep::Char('/'))[k as int] == ".."@);
            return true;
        }
    }
    assert forall|j: int| 0 <= j < split(path@, Sep::Char('/')).len() implies #[trigger] split(
        path@,
        Sep::Char('/'),
    )[j] != ".."@ by {
        assert(split(path@, Sep::Char('/'))[j] == parts@[j]@);
    }
    false
}

/// The issues with a `path` (or a product's `directory`, by `field`): one for a blank, an
/// absolute or a `..` path, none otherwise.
pub fn path_issues_exec(at: &String, field: &str, path: &String) -> (v: Vec<Issue>)
    ensures
        issue_views(v@) == path_issues(at@, field@, path@),
{
    if str_is_blank(path.as_str()) {
        let mut p = literal("`");
        push_str(&mut p, field);
        push_str(&mut p, "` is empty");
        return one(at, p);
    }
    let v = chars_of(path.as_str());
    if crate::text::starts_with_exec(&v, &chars_of("/")) {
        let mut p = literal("`");
        push_str(&mut p, field);
        push_str(&mut p, "` must be relative, but `");
        push_str(&mut p, path.as_str());
        push_str(&mut p, "` is absolute");
        return one(at, p);
    }
    if has_parent_exec(path) {
        let mut p = literal("`");
        push_str(&mut p, field);
        push_str(&mut p, "` must stay inside the workspace, but `");
        push_str(&mut p, path.as_str());
        push_str(&mut p, "` contains `..`");
        return one(at, p);
    }
    none()
}

/// The issues with a `ref`: one for a blank ref, one starting with `-`, or one with
/// whitespace, none otherwise.
pub fn ref_issues_exec(at: &String, r: &String) -> (v: Vec<Issue>)
    ensures
        issue_views(v@) == ref_issues(at@, r@),
{
    if str_is_blank(r.as_str()) {
        return one(at, literal("`ref` is empty"));
    }
    let c = chars_of(r.as_str());
    if c[0] == '-' {
        let mut p = literal("`ref` must not start with '-': `");
        push_str(&mut p, r.as_str());
        push_str(&mut p, "`");
        return one(at, p);
    }
    let mut i: usize = 0;
    while i < c.len()
        invariant
            c@ == r@,
            !blank(r@),
            r@[0] != '-',
            i <= c@.len(),
            forall|k: int| 0 <= k < i ==> !is_ws(#[trigger] c@[k]),
        decreases c@.len() - i,
    {
        if is_whitespace(c[i]) {
            assert(is_ws(r@[i as int]));
            let mut p = literal("`ref` must not contain whitespace: `");
            push_str(&mut p, r.as_str());
            push_str(&mut p, "`");

            return one(at, p);
        }
        i = i + 1;
    }
    none()
}

fn derived_issues_exec(m: &Manifest, at: &String, name: &String, protocol: Protocol) -> (v: Vec<
    Issue,
>)
    ensures
        issue_views(v@) == derived_issues(m@, at@, name@, protocol),
{
    let d = m.remote.url_for(name.as_str(), protocol);
    match validate(d.as_str()) {
        Err(e) => {
            let mut p = literal("the URL derived for ");
            push_str(&mut p, protocol.name());
            push_str(&mut p, " (`");
            push_str(&mut p, d.as_str());
            push_str(&mut p, "`) is not usable: ");
            let msg = e.message();
            push_str(&mut p, msg.as_str());
            one(at, p)
        },
        Ok(()) => none()}
}

/// The issues with an entry's URL: its explicit `url`, else the URLs derived for both
/// transports.
pub fn url_issues_exec(m: &Manifest, at: &String, e: &RepositoryEntry) -> (v: Vec<Issue>)
    ensures
        issue_views(v@) == url_issues(m@, at@, e@),
{
    match &e.url {
        Some(u) => match validate(u.as_str()) {
            Err(err) => {
                let mut p = literal("`url` is not usable: ");
                let msg = err.message();
                push_str(&mut p, msg.as_str());
                one(at, p)
            },
            Ok(()) => none()},
        None => {
            if str_is_blank(e.name.as_str()) {
                none()
            } else {
                let mut v = derived_issues_exec(m, at, &e.name, Protocol::Ssh);
                append(&mut v, derived_issues_exec(m, at, &e.name, Protocol::Https));
                v
            }
        }}
}

fn name_issues_exec(at: &String, es: &Vec<RepositoryEntry>, i: usize) -> (v: Vec<Issue>)
    requires
        i < es@.len(),
    ensures
        issue_views(v@) == name_issues(at@, super::entry_views(es@), i as int),
{
    let ghost ev = super::entry_views(es@);
    if str_is_blank(es[i].name.as_str()) {
        return one(at, literal("`name` is empty"));
    }
    let name = chars_of(es[i].name.as_str());
    for j in 0..i
        invariant
            i < es@.len(),
            ev == super::entry_views(es@),
            name@ == ev[i as int].name,
            !blank(ev[i as int].name),
            forall|k: int| 0 <= k < j ==> #[trigger] ev[k].name != ev[i as int].name,
    {
        if eq_chars(&chars_of(es[j].name.as_str()), &name) {
            assert(ev[j as int].name == ev[i as int].name);
            let mut p = literal("duplicate repository `");
            push_str(&mut p, es[i].name.as_str());
            push_str(&mut p, "` within this product");
            return one(at, p);
        }
    }
    none()
}

fn entry_at_exec(product_at: &String, i: usize) -> (s: String)
    ensures
        s@ == entry_at(product_at@, i as int),
{
    let mut s = product_at.clone();
    push_str(&mut s, ".repositories[");
    push_decimal(&mut s, i as u64);
    push_str(&mut s, "]");
    s
}

fn entry_issues_exec(m: &Manifest, product_at: &String, es: &Vec<RepositoryEntry>, i: usize) -> (v:
    Vec<Issue>)
    requires
        i < es@.len(),
    ensures
        issue_views(v@) == entry_issues(m@, product_at@, super::entry_views(es@), i as int),
{
    let at = entry_at_exec(product_at, i);
    let e = &es[i];
    let mut v = name_issues_exec(&at, es, i);
    append(&mut v, url_issues_exec(m, &at, e));
    match &e.path {
        Some(p) => append(&mut v, path_issues_exec(&at, "path", p)),
        None => append(&mut v, none())}
    match &e.git_ref {
        Some(r) => append(&mut v, ref_issues_exec(&at, r)),
        None => append(&mut v, none())}
    v
}

/// Compare destinations by path components, so `./a` and `a` are recognised as one place.
pub fn normalise_destination_exec(path: &str) -> (n: Vec<char>)
    ensures
        n@ == normalise_destination(path@),
{
    let parts = split_exec(&chars_of(path), Sep::Char('/'));
    let dot = chars_of(".");
    let dots = chars_of("..");
    let mut kept: Vec<Vec<char>> = Vec::new();
    for k in 0..parts.len()
        invariant
            dot@ == "."@,
            dots@ == ".."@,
            views(kept@) == normal_parts(views(parts@).take(k as int)),
    {
        let p = &parts[k];
        assert(views(parts@).take(k + 1).drop_last() == views(parts@).take(k as int));
        assert(views(parts@).take(k + 1).last() == p@);
        if !(p.len() == 0 || eq_chars(p, &dot) || eq_chars(p, &dots)) {
            kept.push(crate::text::sub_vec(p, 0, p.len()));
            assert(p@.subrange(0, p@.len() as int) == p@);
            assert(views(kept@) =~= views(kept@.drop_last()).push(kept@.last()@));
        }
    }
    assert(views(parts@).take(parts@.len() as int) == views(parts@));
    let mut n: Vec<char> = Vec::new();
    for k in 0..kept.len()
        invariant
            n@ == join(views(kept@).take(k as int), "/"@),
    {
        let ghost prefix = views(kept@).take(k + 1);
        assert(prefix.drop_last() == views(kept@).take(k as int));
        assert(prefix.last() == kept@[k as int]@);
        if k > 0 {
            n.push('/');
            proof {
                reveal_strlit("/");
            }
            assert(seq!['/'] == "/"@);
        }
        let ghost before = n@;
        let p = &kept[k];
        for c in 0..p.len()
            invariant
                n@ == before + p@.take(c as int),
        {
            n.push(p[c]);
            assert(p@.take(c + 1) == p@.take(c as int).push(p@[c as int]));
        }
        assert(p@.take(p@.len() as int) == p@);
        proof {
            if k == 0 {
                assert(prefix.len() == 1);
            }
        }
    }
    assert(views(kept@).take(kept@.len() as int) == views(kept@));
    n
}

fn destination_exec(e: &RepositoryEntry) -> (d: Vec<char>)
    ensures
        d@ == destination_of(e@),
{
    match &e.path {
        Some(p) => normalise_destination_exec(p.as_str()),
        None => normalise_destination_exec(e.name.as_str())}
}

proof fn lemma_position_in(sorted: Seq<Seq<char>>, x: Seq<char>)
    ensures
        0 <= position_in(sorted, x) <= sorted.len(),
        forall|j: int| 0 <= j < position_in(sorted, x) ==> seq_lt(#[trigger] sorted[j], x),
        position_in(sorted, x) < sorted.len() ==> !seq_lt(sorted[position_in(sorted, x)], x),
    decreases sorted.len(),
{
    if sorted.len() > 0 && seq_lt(sorted[0], x) {
        lemma_position_in(sorted.drop_first(), x);
        assert forall|j: int| 0 <= j < position_in(sorted, x) implies seq_lt(
            #[trigger] sorted[j],
            x,
        ) by {
            if j > 0 {
                assert(sorted[j] == sorted.drop_first()[j - 1]);
            }
        }
    }
}

/// Insert `x` into the ordered list, as [`sorted_insert`] does.
fn sorted_insert_exec(sorted: &mut Vec<Vec<char>>, x: Vec<char>)
    ensures
        views(final(sorted)@) == sorted_insert(views(old(sorted)@), x@),
{
    let ghost before = views(sorted@);
    let mut i: usize = 0;
    assert(before.skip(0) == before);
    while i < sorted.len() && lt_chars(&sorted[i], &x)
        invariant
            before == views(sorted@),
            i <= sorted@.len(),
            position_in(before, x@) == i + position_in(before.skip(i as int), x@),
        decreases sorted@.len() - i,
    {
        assert(before.skip(i as int).drop_first() == before.skip(i + 1));
        assert(before.skip(i as int)[0] == sorted@[i as int]@);
        i = i + 1;
    }
    proof {
        if i < sorted@.len() {
            assert(before.skip(i as int)[0] == sorted@[i as int]@);
        }
    }
    if i < sorted.len() && eq_chars(&sorted[i], &x) {
        return;
    }
    let ghost xv = x@;
    sorted.insert(i, x);
    assert(views(sorted@) =~= before.insert(i as int, xv));
}

fn claimant_names(es: &Vec<RepositoryEntry>, d: &Vec<char>) -> (names: Vec<String>)
    ensures
        crate::git::string_views(names@) == claimants(super::entry_views(es@), d@, es@.len() as int),
{
    let ghost ev = super::entry_views(es@);
    let mut names: Vec<String> = Vec::new();
    for i in 0..es.len()
        invariant
            ev == super::entry_views(es@),
            crate::git::string_views(names@) == claimants(ev, d@, i as int),
    {
        if eq_chars(&destination_exec(&es[i]), d) {
            names.push(es[i].name.clone());
            assert(crate::git::string_views(names@) =~= crate::git::string_views(
                names@.drop_last(),
            ).push(names@.last()@));
        }
    }
    names
}

fn joined(names: &Vec<String>, sep: &str) -> (s: String)
    ensures
        s@ == join(crate::git::string_views(names@), sep@),
{
    let ghost all = crate::git::string_views(names@);
    let mut s = String::new();
    for k in 0..names.len()
        invariant
            all == crate::git::string_views(names@),
            s@ == join(all.take(k as int), sep@),
    {
        assert(all.take(k + 1).drop_last() == all.take(k as int));
        assert(all.take(k + 1).last() == names@[k as int]@);
        if k > 0 {
            push_str(&mut s, sep);
        } else {
            assert(all.take(k + 1).len() == 1);
        }
        push_str(&mut s, names[k].as_str());
    }
    assert(all.take(names@.len() as int) == all);
    s
}

fn collision_issues_exec(product_at: &String, es: &Vec<RepositoryEntry>) -> (v: Vec<Issue>)
    ensures
        issue_views(v@) == collision_issues(
            product_at@,
            super::entry_views(es@),
            sorted_destinations(super::entry_views(es@), es@.len() as int),
        ),
{
    let ghost ev = super::entry_views(es@);
    let mut dests: Vec<Vec<char>> = Vec::new();
    for i in 0..es.len()
        invariant
            ev == super::entry_views(es@),
            views(dests@) == sorted_destinations(ev, i as int),
    {
        sorted_insert_exec(&mut dests, destination_exec(&es[i]));
    }
    let ghost all = views(dests@);
    let mut v = none();
    for k in 0..dests.len()
        invariant
            ev == super::entry_views(es@),
            all == views(dests@),
            issue_views(v@) == collision_issues(product_at@, ev, all.take(k as int)),
    {
        assert(all.take(k + 1).drop_last() == all.take(k as int));
        assert(all.take(k + 1).last() == dests@[k as int]@);
        let names = claimant_names(es, &dests[k]);
        if names.len() > 1 {
            let mut p = String::new();
            push_decimal(&mut p, names.len() as u64);
            push_str(&mut p, " repositories resolve to the same destination `");
            let d = string_of(&dests[k]);
            push_str(&mut p, d.as_str());
            push_str(&mut p, "`: ");
            let j = joined(&names, ", ");
            push_str(&mut p, j.as_str());
            append(&mut v, one(product_at, p));
        } else {
            append(&mut v, none());
        }
    }
    assert(all.take(dests@.len() as int) == all);
    v
}

fn product_head_issues_exec(at: &String, key: &String, p: &Product) -> (v: Vec<Issue>)
    requires
        at@ == "products."@ + key@,
    ensures
        issue_views(v@) == product_head_issues(key@, p@),
{
    let mut v = key_issues_exec(key);
    if str_is_blank(p.name.as_str()) {
        append(&mut v, one(at, literal("`name` is empty")));
    } else {
        append(&mut v, none());
    }
    match p.group_dir() {
        Some(d) => append(&mut v, path_issues_exec(at, "directory", &String::from_str(d))),
        None => append(&mut v, none())}
    v
}

fn product_body_issues_exec(m: &Manifest, at: &String, key: &String, p: &Product) -> (v: Vec<Issue>)
    requires
        at@ == "products."@ + key@,
    ensures
        issue_views(v@) == product_body_issues(m@, key@, p@),
{
    if p.repositories.len() == 0 {
        return one(at, literal("`repositories` is empty; a product needs at least one"));
    }
    let ghost es = p@.repositories;
    let mut entries = none();
    for i in 0..p.repositories.len()
        invariant
            es == p@.repositories,
            issue_views(entries@) == entries_issues(m@, at@, es, i as int),
    {
        append(&mut entries, entry_issues_exec(m, at, &p.repositories, i));
    }
    append(&mut entries, collision_issues_exec(at, &p.repositories));
    entries
}

fn product_issues_exec(m: &Manifest, key: &String, p: &Product) -> (v: Vec<Issue>)
    ensures
        issue_views(v@) == product_issues(m@, key@, p@),
{
    let mut at = literal("products.");
    push_str(&mut at, key.as_str());
    let mut v = product_head_issues_exec(&at, key, p);
    append(&mut v, product_body_issues_exec(m, &at, key, p));
    v
}

/// Check a manifest. An empty result means valid.
///
/// The schema version is checked by [`Manifest::accept`] before this runs, so it is not
/// repeated here.
pub fn check(manifest: &Manifest) -> (issues: Vec<Issue>)
    ensures
        issue_views(issues@) == check_spec(manifest@),
{
    let mut issues = remote_issues_exec(manifest);
    if manifest.products.len() == 0 {
        append(&mut issues, one(&literal("products"), literal("no products are defined")));
    } else {
        append(&mut issues, none());
    }
    let ghost m = manifest@;
    let mut rest = none();
    for i in 0..manifest.products.len()
        invariant
            m == manifest@,
            issue_views(rest@) == products_issues(m, i as int),
    {
        let entry = &manifest.products[i];
        let more = product_issues_exec(manifest, &entry.key, &entry.product);
        proof {
            lemma_products_issues_step(m, i as int, entry.key@, entry.product@);
        }
        append(&mut rest, more);
    }
    append(&mut issues, rest);
    issues
}

} // verus!
