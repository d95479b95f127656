//! `qeet products` and `qeet repos`: what can be cloned, and where it would land.
//!
//! The columns are laid out and coloured by the caller; what each line says is decided
//! here.
use vstd::prelude::*;

use crate::manifest::{EntryView, Manifest, Product, ProductView, RepositoryEntry, group_dir_of, product_views};
use crate::text::{decimal, opt_view, push_decimal, push_str};

verus! {

broadcast use vstd::string::group_string_axioms;

/// "repo" or "repos", padded to one width so the columns stay aligned.
pub fn repo_word(count: usize) -> (w: &'static str)
    ensures
        w@ == if count == 1 {
            "repo "@
        } else {
            "repos"@
        },
{
    if count == 1 {
        "repo "
    } else {
        "repos"
    }
}

/// Where a product's repositories land: its directory, or the workspace itself.
pub fn location(product: &Product) -> (l: &str)
    ensures
        l@ == match group_dir_of(product@) {
            Some(d) => d,
            None => "."@,
        },
{
    match product.group_dir() {
        Some(d) => d,
        None => ".",
    }
}

/// How many repositories the products list, in all.
pub open spec fn total_repositories(products: Seq<(Seq<char>, ProductView)>) -> nat
    decreases products.len(),
{
    if products.len() == 0 {
        0
    } else {
        total_repositories(products.drop_last()) + products.last().1.repositories.len()
    }
}

/// How many repositories a manifest lists, in all. Every one of them is held in memory,
/// so the count fits in a `usize`.
pub fn repository_count(manifest: &Manifest) -> (n: usize)
    requires
        total_repositories(manifest@.products) <= usize::MAX,
    ensures
        n == total_repositories(manifest@.products),
{
    let products = manifest.products();
    let ghost ps = manifest@.products;
    let mut n: usize = 0;
    for i in 0..products.len()
        invariant
            ps == manifest@.products,
            product_views(products@) == ps,
            ps.len() == products@.len(),
            total_repositories(ps) <= usize::MAX,
            n == total_repositories(ps.take(i as int)),
    {
        assert(ps.take(i + 1).drop_last() == ps.take(i as int));
        assert(ps[i as int].1 == products@[i as int].product@);
        proof {
            lemma_total_prefix(ps, i + 1);
        }
        n = n + products[i].product.repositories.len();
    }
    assert(ps.take(ps.len() as int) == ps);
    n
}

proof fn lemma_total_prefix(ps: Seq<(Seq<char>, ProductView)>, k: int)
    requires
        0 <= k <= ps.len(),
    ensures
        total_repositories(ps.take(k)) <= total_repositories(ps),
    decreases ps.len() - k,
{
    if k < ps.len() {
        lemma_total_prefix(ps, k + 1);
        assert(ps.take(k + 1).drop_last() == ps.take(k));
    } else {
        assert(ps.take(k) == ps);
    }
}

/// The line below the product listing.
pub fn products_footer(products: usize, repositories: usize) -> (s: String)
    ensures
        s@ == decimal(products as nat) + " products, "@ + decimal(repositories as nat)
            + " repositories.  `qeet repos <product>` for detail."@,
{
    let mut s = String::new();
    push_decimal(&mut s, products as u64);
    push_str(&mut s, " products, ");
    push_decimal(&mut s, repositories as u64);
    push_str(&mut s, " repositories.  `qeet repos <product>` for detail.");
    s
}

/// The line under a product's name in `qeet repos`: how many repositories, and where.
pub fn repos_subtitle(product: &Product) -> (s: String)
    ensures
        s@ == decimal(product@.repositories.len()) + match group_dir_of(product@) {
            Some(d) => " repositories, into "@ + d + "/"@,
            None => " repositories, into the current directory"@,
        },
{
    let mut s = String::new();
    push_decimal(&mut s, product.repositories.len() as u64);
    match product.group_dir() {
        Some(d) => {
            push_str(&mut s, " repositories, into ");
            push_str(&mut s, d);
            push_str(&mut s, "/");
        },
        None => push_str(&mut s, " repositories, into the current directory"),
    }
    s
}

/// What is unusual about an entry, in brackets: its `path` and its `ref`, when it sets
/// them.
pub open spec fn notes_of(e: EntryView) -> Option<Seq<char>> {
    match (e.path, e.git_ref) {
        (None, None) => None,
        (Some(p), None) => Some("(path "@ + p + ")"@),
        (None, Some(r)) => Some("(ref "@ + r + ")"@),
        (Some(p), Some(r)) => Some("(path "@ + p + ", ref "@ + r + ")"@),
    }
}

/// What is unusual about an entry.
pub fn entry_notes(entry: &RepositoryEntry) -> (n: Option<String>)
    ensures
        opt_view(n) == notes_of(entry@),
{
    match (&entry.path, &entry.git_ref) {
        (None, None) => None,
        (Some(p), None) => {
            let mut s = String::from_str("(path ");
            push_str(&mut s, p.as_str());
            push_str(&mut s, ")");
            Some(s)
        },
        (None, Some(r)) => {
            let mut s = String::from_str("(ref ");
            push_str(&mut s, r.as_str());
            push_str(&mut s, ")");
            Some(s)
        },
        (Some(p), Some(r)) => {
            let mut s = String::from_str("(path ");
            push_str(&mut s, p.as_str());
            push_str(&mut s, ", ref ");
            push_str(&mut s, r.as_str());
            push_str(&mut s, ")");
            Some(s)
        },
    }
}

} // verus!
