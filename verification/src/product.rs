//! Turning `id` into Qeet ID.
//!
//! Product keys are the user-facing vocabulary. Lookup is case-insensitive on the way in,
//! because `qeet clone ID` meaning something different from `qeet clone id` would be a
//! trap, while the manifest itself is held to canonical lowercase by validation.
use vstd::prelude::*;

use crate::manifest::{Manifest, Product, ProductView, lookup, product_views};
use crate::text::{
    chars_of, copy_string, lower_seq, lowercase, opt_view, push_str, string_of, string_of_range,
    sub_vec, trim, trim_bounds, trim_end, trim_end_bound};
use vstd::utf8::encode_utf8;

verus! {

broadcast use vstd::string::group_string_axioms;

// ---------------------------------------------------------------------------------------
// Edit distance
// ---------------------------------------------------------------------------------------

pub open spec fn min3(x: nat, y: nat, z: nat) -> nat {
    if x <= y && x <= z {
        x
    } else if y <= z {
        y
    } else {
        z
    }
}

/// What replacing `x` by `y` costs: nothing when they are the same character.
pub open spec fn substitution_cost(x: char, y: char) -> nat {
    if x == y {
        0
    } else {
        1
    }
}

/// Levenshtein edit distance: the fewest single-character insertions, deletions and
/// substitutions that turn `a` into `b`.
pub open spec fn lev(a: Seq<char>, b: Seq<char>) -> nat
    decreases a.len() + b.len(),
{
    if a.len() == 0 {
        b.len()
    } else if b.len() == 0 {
        a.len()
    } else {
        min3(
            lev(a.drop_last(), b.drop_last()) + substitution_cost(a.last(), b.last()),
            lev(a.drop_last(), b) + 1,
            lev(a, b.drop_last()) + 1,
        )
    }
}

pub open spec fn max_len(a: Seq<char>, b: Seq<char>) -> nat {
    if a.len() >= b.len() {
        a.len()
    } else {
        b.len()
    }
}

/// The distance never exceeds the longer of the two strings: substitute along the shorter
/// one, then insert or delete the rest.
pub proof fn lemma_lev_at_most_longer(a: Seq<char>, b: Seq<char>)
    ensures
        lev(a, b) <= max_len(a, b),
    decreases a.len() + b.len(),
{
    if a.len() > 0 && b.len() > 0 {
        lemma_lev_at_most_longer(a.drop_last(), b.drop_last());
    }
}

/// The distance is at least the difference of the lengths: every edit changes the length
/// by at most one.
pub proof fn lemma_lev_at_least_length_difference(a: Seq<char>, b: Seq<char>)
    ensures
        lev(a, b) >= a.len() - b.len(),
        lev(a, b) >= b.len() - a.len(),
    decreases a.len() + b.len(),
{
    if a.len() > 0 && b.len() > 0 {
        lemma_lev_at_least_length_difference(a.drop_last(), b.drop_last());
        lemma_lev_at_least_length_difference(a.drop_last(), b);
        lemma_lev_at_least_length_difference(a, b.drop_last());
    }
}

/// Law: the distance from `a` to `b` is the distance from `b` to `a`.
pub proof fn law_levenshtein_symmetric(a: Seq<char>, b: Seq<char>)
    ensures
        lev(a, b) == lev(b, a),
    decreases a.len() + b.len(),
{
    if a.len() > 0 && b.len() > 0 {
        law_levenshtein_symmetric(a.drop_last(), b.drop_last());
        law_levenshtein_symmetric(a.drop_last(), b);
        law_levenshtein_symmetric(a, b.drop_last());
    }
}

/// Law: the distance is zero exactly when the two strings are the same.
pub proof fn law_levenshtein_zero_iff_equal(a: Seq<char>, b: Seq<char>)
    ensures
        lev(a, b) == 0 <==> a == b,
    decreases a.len() + b.len(),
{
    if a.len() > 0 && b.len() > 0 {
        law_levenshtein_zero_iff_equal(a.drop_last(), b.drop_last());
        if lev(a, b) == 0 {
            assert(a.drop_last() == b.drop_last());
            assert(a.last() == b.last());
            assert(a =~= a.drop_last().push(a.last()));
            assert(b =~= b.drop_last().push(b.last()));
        }
        if a == b {
            assert(a.drop_last() == b.drop_last());
        }
    } else if a.len() == 0 && b.len() == 0 {
        assert(a =~= b);
    }
}

/// The distance of `a[..i + 1]` to `b[..j + 1]` from its three neighbours.
proof fn lemma_lev_step(a: Seq<char>, b: Seq<char>, i: int, j: int)
    requires
        0 <= i < a.len(),
        0 <= j < b.len(),
    ensures
        lev(a.take(i + 1), b.take(j + 1)) == min3(
            lev(a.take(i), b.take(j)) + substitution_cost(a[i], b[j]),
            lev(a.take(i), b.take(j + 1)) + 1,
            lev(a.take(i + 1), b.take(j)) + 1,
        ),
{
    assert(a.take(i + 1).drop_last() =~= a.take(i));
    assert(b.take(j + 1).drop_last() =~= b.take(j));
}

/// Levenshtein edit distance, computed one row at a time.
pub fn levenshtein(left: &str, right: &str) -> (d: usize)
    ensures
        d == lev(left@, right@),
{
    let a = chars_of(left);
    let b = chars_of(right);
    let m = b.len();
    // `row[k]` holds the distance of the first `i` characters of `a` to the first `k + 1`
    // of `b`; the distance to the empty prefix of `b` is `i` itself.
    let mut row: Vec<usize> = Vec::new();
    for k in 0..m
        invariant
            m == b@.len(),
            row@.len() == k,
            forall|x: int| 0 <= x < k ==> #[trigger] row@[x] == lev(a@.take(0), b@.take(x + 1)),
    {
        row.push(k + 1);
    }
    let mut i: usize = 0;
    assert(a@.len() == a.len());
    while i < a.len()
        invariant
            m == b@.len(),
            a@.len() <= usize::MAX,
            i <= a@.len(),
            row@.len() == m,
            forall|x: int| 0 <= x < m ==> #[trigger] row@[x] == lev(a@.take(i as int), b@.take(x + 1)),
        decreases a@.len() - i,
    {
        let l = a[i];
        let mut diag: usize = i;
        let mut left_val: usize = i + 1;
        let mut j: usize = 0;
        while j < m
            invariant
                m == b@.len(),
                a@.len() <= usize::MAX,
                i < a@.len(),
                l == a@[i as int],
                j <= m,
                row@.len() == m,
                diag == lev(a@.take(i as int), b@.take(j as int)),
                left_val == lev(a@.take(i + 1), b@.take(j as int)),
                forall|x: int| 0 <= x < j ==> #[trigger] row@[x] == lev(a@.take(i + 1), b@.take(x + 1)),
                forall|x: int|
                    j <= x < m ==> #[trigger] row@[x] == lev(a@.take(i as int), b@.take(x + 1)),
            decreases m - j,
        {
            proof {
                lemma_lev_at_most_longer(a@.take(i as int), b@.take(j as int));
                lemma_lev_at_most_longer(a@.take(i + 1), b@.take(j + 1));
                lemma_lev_step(a@, b@, i as int, j as int);
            }
            let up = row[j];
            let cost: usize = if l == b[j] {
                0
            } else {
                1
            };
            let substitution = diag + cost;
            let insertion = if left_val < usize::MAX {
                left_val + 1
            } else {
                usize::MAX
            };
            let deletion = if up < usize::MAX {
                up + 1
            } else {
                usize::MAX
            };
            let mut best = substitution;
            if insertion < best {
                best = insertion;
            }
            if deletion < best {
                best = deletion;
            }
            row.set(j, best);
            diag = up;
            left_val = best;
            j = j + 1;
        }
        i = i + 1;
    }
    assert(a@.take(a@.len() as int) == a@);
    if m == 0 {
        a.len()
    } else {
        assert(b@.take(m as int) == b@);
        row[m - 1]
    }
}

// ---------------------------------------------------------------------------------------
// Suggestions
// ---------------------------------------------------------------------------------------

/// How many edits a suggestion may be away: roughly a third of the word, at least one
/// and never more than three -- beyond that a "did you mean" is noise rather than help.
pub open spec fn budget(n: nat) -> nat {
    if n / 3 < 1 {
        1
    } else if n / 3 > 3 {
        3
    } else {
        n / 3
    }
}

/// Law: the edit budget is a third of the request's length in characters, but at least one
/// and at most three -- so a request of nine or more characters accepts a key three edits
/// away, and a request of up to five characters only one edit away.
pub proof fn law_budget_is_a_clamped_third(n: nat)
    ensures
        budget(n) == (if n < 3 {
            1
        } else if n >= 12 {
            3
        } else {
            n / 3
        }),
        n >= 9 ==> budget(n) == 3,
        n < 6 ==> budget(n) == 1,
        1 <= budget(n) <= 3,
        budget(n) <= n || n == 0,
{
}

/// What `str::len` reports for a key: the length of its UTF-8 encoding.
pub open spec fn byte_len(k: Seq<char>) -> usize {
    encode_utf8(k).len() as usize
}

/// Is `k` close enough to `req` to be proposed?
pub open spec fn near(req: Seq<char>, k: Seq<char>) -> bool {
    lev(req, k) <= budget(req.len())
}

/// Is `a` a strictly better proposal than `b`: nearer, or as near and shorter?
pub open spec fn better(req: Seq<char>, a: Seq<char>, b: Seq<char>) -> bool {
    lev(req, a) < lev(req, b) || (lev(req, a) == lev(req, b) && byte_len(a) < byte_len(b))
}

/// The index of the best proposal among the first `n` keys: the first of the nearest, ties
/// broken by the shorter key.
pub open spec fn best_among(req: Seq<char>, keys: Seq<Seq<char>>, n: int) -> Option<int>
    decreases n,
{
    if n <= 0 {
        None
    } else {
        let k = n - 1;
        match best_among(req, keys, n - 1) {
            None => if near(req, keys[k]) {
                Some(k)
            } else {
                None
            },
            Some(b) => if near(req, keys[k]) && better(req, keys[k], keys[b]) {
                Some(k)
            } else {
                Some(b)
            }}
    }
}

/// The key to propose for `req`, if any: none for an empty request.
pub open spec fn suggestion_for(req: Seq<char>, keys: Seq<Seq<char>>) -> Option<Seq<char>> {
    if req.len() == 0 {
        None
    } else {
        match best_among(req, keys, keys.len() as int) {
            Some(i) => Some(keys[i]),
            None => None}
    }
}

pub open spec fn string_views(v: Seq<String>) -> Seq<Seq<char>> {
    v.map_values(|s: String| s@)
}

proof fn lemma_best_among(req: Seq<char>, keys: Seq<Seq<char>>, n: int)
    requires
        0 <= n <= keys.len(),
    ensures
        best_among(req, keys, n) is None <==> forall|k: int| 0 <= k < n ==> !near(req, #[trigger] keys[k]),
        best_among(req, keys, n) matches Some(b) ==> {
            &&& 0 <= b < n
            &&& near(req, keys[b])
            &&& forall|k: int| 0 <= k < n && near(req, #[trigger] keys[k]) ==> !better(req, keys[k], keys[b])
            &&& forall|k: int| 0 <= k < b && near(req, #[trigger] keys[k]) ==> better(req, keys[b], keys[k])
        },
    decreases n,
{
    if n > 0 {
        lemma_best_among(req, keys, n - 1);
    }
}

/// Law: a suggestion is within the edit budget, no candidate is a strictly better
/// proposal, and every earlier candidate within the budget is a strictly worse one; there
/// is no suggestion exactly when the request is empty or no candidate is within budget.
pub proof fn law_suggestion_is_the_nearest(req: Seq<char>, keys: Seq<Seq<char>>)
    ensures
        suggestion_for(req, keys) is None <==> (req.len() == 0 || forall|k: int|
            0 <= k < keys.len() ==> !near(req, #[trigger] keys[k])),
        suggestion_for(req, keys) matches Some(s) ==> exists|b: int|
            {
                &&& 0 <= b < keys.len()
                &&& #[trigger] keys[b] == s
                &&& near(req, s)
                &&& forall|k: int|
                    0 <= k < keys.len() && near(req, #[trigger] keys[k]) ==> !better(req, keys[k], s)
                &&& forall|k: int| 0 <= k < b && near(req, #[trigger] keys[k]) ==> better(req, s, keys[k])
            },
{
    lemma_best_among(req, keys, keys.len() as int);
}

/// Law: whatever the request, a key within a third of its length in edits (clamped to
/// 1..=3) always brings a suggestion, and a suggestion is never further away than that: a
/// request of nine or more characters accepts a key three edits away.
pub proof fn law_suggestions_reach_a_clamped_third(req: Seq<char>, keys: Seq<Seq<char>>, k: int)
    requires
        req.len() > 0,
        0 <= k < keys.len(),
        lev(req, keys[k]) <= (if req.len() < 3 {
            1
        } else if req.len() >= 9 {
            3
        } else {
            req.len() / 3
        }),
    ensures
        suggestion_for(req, keys) is Some,
        suggestion_for(req, keys) matches Some(s) ==> lev(req, s) <= (if req.len() < 3 {
            1
        } else if req.len() >= 9 {
            3
        } else {
            req.len() / 3
        }),
{
    law_suggestion_is_the_nearest(req, keys);
    assert(near(req, keys[k]));
}

/// The nearest key, if one is near enough to be worth suggesting.
pub fn closest(requested: &str, candidates: &Vec<String>) -> (s: Option<String>)
    ensures
        opt_view(s) == suggestion_for(requested@, string_views(candidates@)),
{
    let r = chars_of(requested);
    let ghost keys = string_views(candidates@);
    if r.len() == 0 {
        return None;
    }
    let third = r.len() / 3;
    let allowed: usize = if third < 1 {
        1
    } else if third > 3 {
        3
    } else {
        third
    };
    let mut best: Option<usize> = None;
    let mut best_distance: usize = 0;
    let mut best_len: usize = 0;
    for i in 0..candidates.len()
        invariant
            keys == string_views(candidates@),
            r@ == requested@,
            allowed == budget(requested@.len()),
            best == option_usize(best_among(requested@, keys, i as int)),
            best matches Some(b) ==> b < i && best_distance == lev(requested@, keys[b as int])
                && best_len == byte_len(keys[b as int]),
    {
        let candidate = candidates[i].as_str();
        let d = levenshtein(requested, candidate);
        let n = candidate.len();
        assert(keys[i as int] == candidate@);
        assert(n == byte_len(keys[i as int]));
        assert(near(requested@, keys[i as int]) == (d <= allowed));
        let ghost prev = best_among(requested@, keys, i as int);
        proof {
            lemma_best_among(requested@, keys, i as int);
        }
        assert(best_among(requested@, keys, i + 1) == match prev {
            None => if near(requested@, keys[i as int]) {
                Some(i as int)
            } else {
                None
            },
            Some(b) => if near(requested@, keys[i as int]) && better(requested@, keys[i as int], keys[b]) {
                Some(i as int)
            } else {
                Some(b)
            }});
        if d <= allowed {
            match best {
                None => {
                    best = Some(i);
                    best_distance = d;
                    best_len = n;
                },
                Some(_) => {
                    if d < best_distance || (d == best_distance && n < best_len) {
                        best = Some(i);
                        best_distance = d;
                        best_len = n;
                    }
                }}
        }
    }
    proof {
        lemma_best_among(requested@, keys, keys.len() as int);
    }
    match best {
        Some(b) => Some(copy_string(&candidates[b])),
        None => None}
}

pub open spec fn option_usize(o: Option<int>) -> Option<usize> {
    match o {
        Some(i) => Some(i as usize),
        None => None}
}


// ---------------------------------------------------------------------------------------
// Resolution
// ---------------------------------------------------------------------------------------

/// No product matched what the user asked for.
#[derive(Debug, Clone, PartialEq, Eq)]
pub struct UnknownProduct {
    pub requested: String,
    pub available: Vec<String>,
    /// A close match, when there is exactly one worth proposing.
    pub suggestion: Option<String>}

/// The key a request is looked up under: trimmed, then lowercased.
pub open spec fn normalised(requested: Seq<char>) -> Seq<char> {
    lower_seq(trim(requested))
}

/// The product keys, in order.
pub open spec fn key_views(products: Seq<(Seq<char>, ProductView)>) -> Seq<Seq<char>> {
    products.map_values(|e: (Seq<char>, ProductView)| e.0)
}

/// `  <key>\n` for every key.
pub open spec fn listing(keys: Seq<Seq<char>>) -> Seq<char>
    decreases keys.len(),
{
    if keys.len() == 0 {
        Seq::<char>::empty()
    } else {
        listing(keys.drop_last()) + "  "@ + keys.last() + "\n"@
    }
}

/// The message of an unknown product, before trailing whitespace is trimmed.
pub open spec fn unknown_text(
    requested: Seq<char>,
    available: Seq<Seq<char>>,
    suggestion: Option<Seq<char>>,
) -> Seq<char> {
    "Unknown product: "@ + requested + "\n"@ + match suggestion {
        Some(s) => "\nDid you mean `"@ + s + "`?\n"@,
        None => Seq::<char>::empty()} + "\nAvailable products:\n"@ + listing(available)
}

impl UnknownProduct {
    /// The message shown to the user: what was asked for, a suggestion when there is one,
    /// and every available product, with trailing whitespace removed.
    pub fn message(&self) -> (m: String)
        ensures
            m@ == trim_end(
                unknown_text(
                    self.requested@,
                    string_views(self.available@),
                    opt_view(self.suggestion),
                ),
            ),
    {
        let mut text = String::from_str("Unknown product: ");
        push_str(&mut text, self.requested.as_str());
        push_str(&mut text, "\n");
        let ghost head = text@;
        match &self.suggestion {
            Some(s) => {
                push_str(&mut text, "\nDid you mean `");
                push_str(&mut text, s.as_str());
                push_str(&mut text, "`?\n");
            },
            None => {}}
        push_str(&mut text, "\nAvailable products:\n");
        let ghost keys = string_views(self.available@);
        let ghost before = text@;
        for i in 0..self.available.len()
            invariant
                keys == string_views(self.available@),
                text@ == before + listing(keys.take(i as int)),
        {
            assert(keys.take(i + 1).drop_last() == keys.take(i as int));
            push_str(&mut text, "  ");
            push_str(&mut text, self.available[i].as_str());
            push_str(&mut text, "\n");
        }
        assert(keys.take(self.available@.len() as int) == keys);
        assert(text@ =~= unknown_text(self.requested@, keys, opt_view(self.suggestion)));
        let c = chars_of(text.as_str());
        let end = trim_end_bound(&c, 0, c.len());
        assert(c@.subrange(0, c@.len() as int) == c@);
        string_of_range(&c, 0, end)
    }
}

/// The keys of a manifest, copied, in order.
fn owned_keys(manifest: &Manifest) -> (keys: Vec<String>)
    ensures
        string_views(keys@) == key_views(manifest@.products),
{
    let products = manifest.products();
    let ghost all = manifest@.products;
    let mut keys: Vec<String> = Vec::new();
    for i in 0..products.len()
        invariant
            all == manifest@.products,
            product_views(products@) == all,
            all.len() == products@.len(),
            keys@.len() == i,
            string_views(keys@) == key_views(all.take(i as int)),
    {
        let ghost old_views = string_views(keys@);
        keys.push(copy_string(&products[i].key));
        assert(all[i as int].0 == products@[i as int].key@);
        assert forall|x: int| 0 <= x < i + 1 implies #[trigger] string_views(keys@)[x] == key_views(
            all.take(i + 1),
        )[x] by {
            if x < i {
                assert(string_views(keys@)[x] == old_views[x]);
                assert(key_views(all.take(i + 1))[x] == key_views(all.take(i as int))[x]);
            }
        }
        assert(string_views(keys@) =~= key_views(all.take(i + 1)));
    }
    assert(all.take(products@.len() as int) == all);
    keys
}

/// Resolve a product key against a manifest: the request is trimmed and lowercased, then
/// looked up; when nothing matches, the error lists every product and proposes the nearest
/// key if one is close enough.
pub fn resolve<'m>(manifest: &'m Manifest, requested: &str) -> (r: Result<&'m Product, UnknownProduct>)
    ensures
        match r {
            Ok(p) => lookup(manifest@.products, normalised(requested@)) matches Some(i)
                && manifest@.products[i].1 == p@,
            Err(e) => lookup(manifest@.products, normalised(requested@)) is None && e.requested@
                == requested@ && string_views(e.available@) == key_views(manifest@.products)
                && opt_view(e.suggestion) == suggestion_for(
                normalised(requested@),
                key_views(manifest@.products),
            )},
{
    let c = chars_of(requested);
    let (from, to) = trim_bounds(&c, 0, c.len());
    assert(c@.subrange(0, c@.len() as int) == c@);
    let trimmed = sub_vec(&c, from, to);
    let key = string_of(&lowercase(&trimmed));
    match manifest.get(key.as_str()) {
        Some(product) => Ok(product),
        None => {
            let available = owned_keys(manifest);
            let suggestion = closest(key.as_str(), &available);
            Err(UnknownProduct { requested: String::from_str(requested), available, suggestion })
        }}
}

} // verus!
