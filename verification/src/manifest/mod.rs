//! The product registry: what a product is, and which repositories belong to it.
//!
//! The manifest is data, not code. Adding a product or moving a repository between
//! products is a manifest edit -- it never requires a change to this crate.
use vstd::prelude::*;

pub mod source;
pub mod validate;

use crate::remote::{Protocol, Remote, derived_url};
use crate::text::{
    blank, chars_of, copy_string, decimal, eq_chars, lt_chars, opt_view,
    push_decimal, push_str, seq_lt, str_is_blank};
use validate::{Issue, IssueView};

verus! {

broadcast use vstd::string::group_string_axioms;

/// The only manifest schema this build understands.
///
/// A manifest declaring anything else is refused rather than interpreted, so a newer
/// manifest cannot be half-understood by an older binary.
pub const SUPPORTED_SCHEMA: u32 = 1;

/// One repository within a product.
///
/// Only `name` is required. `url` overrides URL derivation entirely, `path` overrides the
/// destination directory, and `git_ref` clones a branch or tag other than the remote
/// default.
#[derive(Debug, Clone, PartialEq, Eq)]
pub struct RepositoryEntry {
    pub name: String,
    pub url: Option<String>,
    pub path: Option<String>,
    pub git_ref: Option<String>}

pub struct EntryView {
    pub name: Seq<char>,
    pub url: Option<Seq<char>>,
    pub path: Option<Seq<char>>,
    pub git_ref: Option<Seq<char>>}

impl View for RepositoryEntry {
    type V = EntryView;

    open spec fn view(&self) -> EntryView {
        EntryView {
            name: self.name@,
            url: opt_view(self.url),
            path: opt_view(self.path),
            git_ref: opt_view(self.git_ref)}
    }
}

#[derive(Debug, Clone, PartialEq, Eq)]
pub struct Product {
    /// Display name, e.g. "Qeet ID".
    pub name: String,
    /// Directory the product's repositories are grouped under, relative to the workspace.
    /// Absent means flat: the repositories land directly in the workspace.
    pub directory: Option<String>,
    pub repositories: Vec<RepositoryEntry>}

pub struct ProductView {
    pub name: Seq<char>,
    pub directory: Option<Seq<char>>,
    pub repositories: Seq<EntryView>}

pub open spec fn entry_views(v: Seq<RepositoryEntry>) -> Seq<EntryView> {
    v.map_values(|e: RepositoryEntry| e@)
}

impl View for Product {
    type V = ProductView;

    open spec fn view(&self) -> ProductView {
        ProductView {
            name: self.name@,
            directory: opt_view(self.directory),
            repositories: entry_views(self.repositories@)}
    }
}

/// The grouping directory of a product: its `directory`, unless that is blank.
pub open spec fn group_dir_of(p: ProductView) -> Option<Seq<char>> {
    match p.directory {
        Some(d) => if blank(d) {
            None
        } else {
            Some(d)
        },
        None => None}
}

impl Product {
    /// The grouping directory, if this product has one.
    pub fn group_dir(&self) -> (d: Option<&str>)
        ensures
            match d {
                Some(s) => group_dir_of(self@) == Some(s@),
                None => group_dir_of(self@) is None},
    {
        match &self.directory {
            Some(dir) => {
                if str_is_blank(dir.as_str()) {
                    None
                } else {
                    Some(dir.as_str())
                }
            },
            None => None}
    }
}

/// A product under its key.
#[derive(Debug, Clone, PartialEq, Eq)]
pub struct ProductEntry {
    pub key: String,
    pub product: Product}

/// A parsed manifest: schema, remote and products, the products ordered by key. Built with
/// [`Manifest::new`] and [`Manifest::insert_product`], so the order by key, with no key
/// twice, is an invariant of the type.
#[derive(Debug, PartialEq, Eq)]
pub struct Manifest {
    pub(crate) schema: u32,
    pub(crate) remote: Remote,
    /// Ordered by key, which is also the order products are listed to the user.
    pub(crate) products: Vec<ProductEntry>}

pub open spec fn product_views(v: Seq<ProductEntry>) -> Seq<(Seq<char>, ProductView)> {
    v.map_values(|e: ProductEntry| (e.key@, e.product@))
}

/// Keys in strictly increasing order: what a `BTreeMap` keyed by `String` guarantees, and
/// the reason no key occurs twice.
pub open spec fn keys_ordered(products: Seq<(Seq<char>, ProductView)>) -> bool {
    forall|i: int| 0 <= i < products.len() - 1 ==> seq_lt(#[trigger] products[i].0, products[i + 1].0)
}

/// The index of the first product with key `k`.
pub open spec fn lookup(products: Seq<(Seq<char>, ProductView)>, k: Seq<char>) -> Option<int>
    decreases products.len(),
{
    if products.len() == 0 {
        None
    } else {
        match lookup(products.drop_last(), k) {
            Some(i) => Some(i),
            None => if products.last().0 == k {
                Some(products.len() - 1)
            } else {
                None
            }}
    }
}

/// Where a new key goes: before the first key that is not smaller than it.
pub open spec fn insert_position(products: Seq<(Seq<char>, ProductView)>, k: Seq<char>) -> int
    decreases products.len(),
{
    if products.len() == 0 {
        0
    } else if seq_lt(products[0].0, k) {
        1 + insert_position(products.drop_first(), k)
    } else {
        0
    }
}

/// The products after inserting `p` under `k`: `BTreeMap::insert`, which replaces the
/// product of an existing key.
pub open spec fn inserted(products: Seq<(Seq<char>, ProductView)>, k: Seq<char>, p: ProductView) -> Seq<
    (Seq<char>, ProductView),
> {
    let i = insert_position(products, k);
    if i < products.len() && products[i].0 == k {
        products.update(i, (k, p))
    } else {
        products.insert(i, (k, p))
    }
}

/// `seq_lt` is a strict total order: of two different strings, exactly one comes first.
pub proof fn lemma_seq_lt_total(a: Seq<char>, b: Seq<char>)
    ensures
        a != b ==> (seq_lt(a, b) || seq_lt(b, a)),
        !(seq_lt(a, b) && seq_lt(b, a)),
        !seq_lt(a, a),
    decreases a.len(),
{
    if a.len() > 0 && b.len() > 0 {
        lemma_seq_lt_total(a.drop_first(), b.drop_first());
        if a[0] == b[0] && a != b {
            assert(a.drop_first() != b.drop_first()) by {
                if a.drop_first() == b.drop_first() {
                    assert forall|i: int| 0 <= i < a.len() implies a[i] == b[i] by {
                        if i > 0 {
                            assert(a[i] == a.drop_first()[i - 1]);
                            assert(b[i] == b.drop_first()[i - 1]);
                        }
                    }
                    assert(a =~= b);
                }
            }
        }
    } else if a.len() > 0 {
    } else if b.len() > 0 {
    } else {
        assert(a =~= b);
    }
    if a.len() > 0 {
        lemma_seq_lt_total(a.drop_first(), a.drop_first());
    }
}

proof fn lemma_insert_position(products: Seq<(Seq<char>, ProductView)>, k: Seq<char>)
    ensures
        0 <= insert_position(products, k) <= products.len(),
        forall|j: int| 0 <= j < insert_position(products, k) ==> seq_lt(#[trigger] products[j].0, k),
        insert_position(products, k) < products.len() ==> !seq_lt(
            products[insert_position(products, k)].0,
            k,
        ),
    decreases products.len(),
{
    if products.len() > 0 && seq_lt(products[0].0, k) {
        lemma_insert_position(products.drop_first(), k);
        assert forall|j: int| 0 <= j < insert_position(products, k) implies seq_lt(
            #[trigger] products[j].0,
            k,
        ) by {
            if j > 0 {
                assert(products[j] == products.drop_first()[j - 1]);
            }
        }
    }
}

impl Manifest {
    /// The products are ordered by key, and no key occurs twice.
    #[verifier::type_invariant]
    spec fn keys_in_order(self) -> bool {
        keys_ordered(product_views(self.products@))
    }

    /// A manifest with no products yet.
    pub fn new(schema: u32, remote: Remote) -> (m: Manifest)
        ensures
            m@.schema == schema,
            m@.host == remote.host@,
            m@.owner == remote.owner@,
            m@.protocol == remote.protocol,
            m@.products == Seq::<(Seq<char>, ProductView)>::empty(),
    {
        let products: Vec<ProductEntry> = Vec::new();
        assert(product_views(products@) =~= Seq::<(Seq<char>, ProductView)>::empty());
        Manifest { schema, remote, products }
    }

    /// The schema the manifest declares.
    pub fn schema(&self) -> (s: u32)
        ensures
            s == self@.schema,
    {
        self.schema
    }

    /// Declare another schema, the products and the remote unchanged.
    pub fn set_schema(&mut self, schema: u32)
        ensures
            final(self)@ == (ManifestView { schema, ..old(self)@ }),
    {
        proof {
            use_type_invariant(&*self);
        }
        self.schema = schema;
    }

    /// The remote that clone URLs are derived from.
    pub fn remote(&self) -> (r: &Remote)
        ensures
            r.host@ == self@.host,
            r.owner@ == self@.owner,
            r.protocol == self@.protocol,
    {
        &self.remote
    }

    /// The products, ordered by key, no key twice.
    pub fn products(&self) -> (p: &Vec<ProductEntry>)
        ensures
            product_views(p@) == self@.products,
            keys_ordered(self@.products),
    {
        proof {
            use_type_invariant(self);
        }
        &self.products
    }

    /// Add a product under a key, replacing the product of an existing key, and keeping the
    /// products ordered by key.
    pub fn insert_product(&mut self, key: String, product: Product)
        ensures
            final(self)@ == (ManifestView {
                products: inserted(old(self)@.products, key@, product@),
                ..old(self)@
            }),
            keys_ordered(final(self)@.products),
    {
        proof {
            use_type_invariant(&*self);
        }
        let mut products: Vec<ProductEntry> = Vec::new();
        std::mem::swap(&mut products, &mut self.products);
        let ghost before = product_views(products@);
        let k = chars_of(key.as_str());
        let mut i: usize = 0;
        assert(before.skip(0) == before);
        while i < products.len() && lt_chars(&chars_of(products[i].key.as_str()), &k)
            invariant
                before == product_views(products@),
                i <= products@.len(),
                insert_position(before, k@) == i + insert_position(before.skip(i as int), k@),
            decreases products@.len() - i,
        {
            assert(before.skip(i as int).drop_first() == before.skip(i + 1));
            i = i + 1;
        }
        proof {
            assert(before.skip(i as int).len() == 0 || !seq_lt(before.skip(i as int)[0].0, k@));
            lemma_insert_position(before, k@);
            lemma_seq_lt_total(k@, k@);
        }
        let ghost pos = i as int;
        let replace = i < products.len() && eq_chars(&chars_of(products[i].key.as_str()), &k);
        let entry = ProductEntry { key, product };
        if replace {
            products.set(i, entry);
            assert(product_views(products@) =~= before.update(pos, (k@, entry.product@)));
        } else {
            products.insert(i, entry);
            assert(product_views(products@) =~= before.insert(pos, (k@, entry.product@)));
        }
        proof {
            let after = product_views(products@);
            if pos < before.len() && !replace {
                lemma_seq_lt_total(before[pos].0, k@);
            }
            assert forall|j: int| 0 <= j < after.len() - 1 implies seq_lt(
                #[trigger] after[j].0,
                after[j + 1].0,
            ) by {
                if replace {
                    if j + 1 == pos {
                        assert(seq_lt(before[j].0, k@));
                    } else if j == pos {
                        assert(before[pos].0 == k@);
                        assert(seq_lt(before[j].0, before[j + 1].0));
                    } else {
                        assert(seq_lt(before[j].0, before[j + 1].0));
                    }
                } else {
                    if j + 1 < pos {
                        assert(seq_lt(before[j].0, before[j + 1].0));
                    } else if j + 1 == pos {
                        assert(seq_lt(before[j].0, k@));
                    } else if j == pos {
                        assert(after[j + 1] == before[pos]);
                    } else {
                        assert(after[j] == before[j - 1]);
                        assert(after[j + 1] == before[j]);
                        assert(seq_lt(before[j - 1].0, before[j].0));
                    }
                }
            }
        }
        self.products = products;
    }

    /// The product stored under exactly this key.
    pub fn get(&self, key: &str) -> (r: Option<&Product>)
        ensures
            match r {
                Some(p) => lookup(self@.products, key@) matches Some(i) && self@.products[i].1
                    == p@,
                None => lookup(self@.products, key@) is None},
    {
        let k = chars_of(key);
        let ghost all = product_views(self.products@);
        for i in 0..self.products.len()
            invariant
                all == product_views(self.products@),
                k@ == key@,
                lookup(all.take(i as int), key@) is None,
        {
            assert(all.take(i + 1).drop_last() == all.take(i as int));
            if eq_chars(&chars_of(self.products[i].key.as_str()), &k) {
                proof {
                    lemma_lookup_prefix(all, i as int + 1, key@);
                }
                return Some(&self.products[i].product);
            }
        }
        assert(all.take(self.products@.len() as int) == all);
        None
    }

    /// Product keys, in the order they are shown to the user.
    pub fn product_keys(&self) -> (keys: Vec<&str>)
        ensures
            keys@.len() == self@.products.len(),
            forall|i: int| 0 <= i < keys@.len() ==> #[trigger] keys@[i]@ == self@.products[i].0,
    {
        let mut keys: Vec<&str> = Vec::new();
        for i in 0..self.products.len()
            invariant
                keys@.len() == i,
                forall|j: int| 0 <= j < i ==> #[trigger] keys@[j]@ == self.products@[j].key@,
        {
            keys.push(self.products[i].key.as_str());
        }
        keys
    }

    /// The clone URL for an entry: its explicit `url`, else derived from the remote.
    pub fn url_for(&self, entry: &RepositoryEntry, protocol: Protocol) -> (url: String)
        ensures
            url@ == entry_url(self@.host, self@.owner, entry@, protocol),
    {
        match &entry.url {
            Some(u) => copy_string(u),
            None => self.remote.url_for(entry.name.as_str(), protocol)}
    }

    /// Accept a parsed manifest: refuse an unsupported schema first, because a schema this
    /// build does not understand makes every other diagnostic untrustworthy, then refuse a
    /// manifest with any validation issue, reporting all of them.
    pub fn accept(self, origin: &str) -> (r: Result<Manifest, LoadError>)
        ensures
            r is Ok <==> (self@.schema == SUPPORTED_SCHEMA && validate::check_spec(self@).len()
                == 0),
            r matches Ok(m) ==> m == self,
            r matches Err(LoadError::Schema { found }) ==> self@.schema != SUPPORTED_SCHEMA && found
                == self@.schema,
            r matches Err(LoadError::Invalid { origin: o, issues }) ==> self@.schema
                == SUPPORTED_SCHEMA && o@ == origin@ && validate::issue_views(issues@)
                == validate::check_spec(self@) && issues@.len() > 0,
    {
        if self.schema != SUPPORTED_SCHEMA {
            return Err(LoadError::Schema { found: self.schema });
        }
        let issues = validate::check(&self);
        if issues.len() > 0 {
            return Err(LoadError::Invalid { origin: String::from_str(origin), issues });
        }
        Ok(self)
    }
}

/// A manifest as a value of the specification.
pub struct ManifestView {
    pub schema: u32,
    pub host: Seq<char>,
    pub owner: Seq<char>,
    pub protocol: Protocol,
    pub products: Seq<(Seq<char>, ProductView)>}

impl View for Manifest {
    type V = ManifestView;

    closed spec fn view(&self) -> ManifestView {
        ManifestView {
            schema: self.schema,
            host: self.remote.host@,
            owner: self.remote.owner@,
            protocol: self.remote.protocol,
            products: product_views(self.products@)}
    }
}

/// The clone URL of an entry: its explicit `url`, else the one derived from the remote.
pub open spec fn entry_url(host: Seq<char>, owner: Seq<char>, e: EntryView, protocol: Protocol) -> Seq<
    char,
> {
    match e.url {
        Some(u) => u,
        None => derived_url(host, owner, e.name, protocol)}
}

proof fn lemma_lookup_prefix(all: Seq<(Seq<char>, ProductView)>, n: int, k: Seq<char>)
    requires
        0 < n <= all.len(),
        lookup(all.take(n - 1), k) is None,
        all[n - 1].0 == k,
    ensures
        lookup(all, k) == Some(n - 1),
    decreases all.len() - n,
{
    assert(all.take(n).drop_last() == all.take(n - 1));
    assert(lookup(all.take(n), k) == Some(n - 1));
    if n < all.len() {
        lemma_lookup_extends(all, n, k);
    } else {
        assert(all.take(n) == all);
    }
}

proof fn lemma_lookup_extends(all: Seq<(Seq<char>, ProductView)>, n: int, k: Seq<char>)
    requires
        0 <= n <= all.len(),
        lookup(all.take(n), k) is Some,
    ensures
        lookup(all, k) == lookup(all.take(n), k),
    decreases all.len() - n,
{
    if n < all.len() {
        assert(all.take(n + 1).drop_last() == all.take(n));
        lemma_lookup_extends(all, n + 1, k);
    } else {
        assert(all.take(n) == all);
    }
}

/// A manifest that could not be accepted.
#[derive(Debug, Clone, PartialEq, Eq)]
pub enum LoadError {
    /// The manifest declares a schema this build does not understand.
    Schema { found: u32 },
    /// The manifest breaks one or more rules; all of them are listed.
    Invalid { origin: String, issues: Vec<Issue> }}

/// ` (origin)`, or nothing when the origin is unnamed.
pub open spec fn location(origin: Seq<char>) -> Seq<char> {
    if origin.len() == 0 {
        Seq::<char>::empty()
    } else {
        " ("@ + origin + ")"@
    }
}

/// Every issue on a line of its own, as a bulleted list.
pub open spec fn rendered_issues(issues: Seq<IssueView>) -> Seq<char>
    decreases issues.len(),
{
    if issues.len() == 0 {
        Seq::<char>::empty()
    } else if issues.len() == 1 {
        "  - "@ + validate::issue_line(issues[0])
    } else {
        rendered_issues(issues.drop_last()) + "\n"@ + "  - "@ + validate::issue_line(
            issues.last(),
        )
    }
}

pub fn location_text(origin: &str) -> (s: String)
    ensures
        s@ == location(origin@),
{
    if origin.is_empty() {
        String::new()
    } else {
        let mut s = String::from_str(" (");
        push_str(&mut s, origin);
        push_str(&mut s, ")");
        s
    }
}

pub fn render_issues(issues: &Vec<Issue>) -> (s: String)
    ensures
        s@ == rendered_issues(validate::issue_views(issues@)),
{
    let ghost all = validate::issue_views(issues@);
    let mut s = String::new();
    for i in 0..issues.len()
        invariant
            all == validate::issue_views(issues@),
            s@ == rendered_issues(all.take(i as int)),
    {
        assert(all.take(i + 1).drop_last() == all.take(i as int));
        if i > 0 {
            push_str(&mut s, "\n");
        }
        push_str(&mut s, "  - ");
        let line = issues[i].message();
        push_str(&mut s, line.as_str());
        assert(all.take(i + 1).last() == issues@[i as int]@);
    }
    assert(all.take(issues@.len() as int) == all);
    s
}

impl LoadError {
    /// The message shown to the user.
    pub fn message(&self) -> (m: String)
        ensures
            m@ == match self {
                LoadError::Schema { found } => "unsupported manifest schema "@ + decimal(
                    *found as nat,
                ) + " (this build of qeet supports schema 1)"@,
                LoadError::Invalid { origin, issues } => "invalid manifest"@ + location(origin@)
                    + ":\n"@ + rendered_issues(validate::issue_views(issues@))},
    {
        match self {
            LoadError::Schema { found } => {
                let mut m = String::from_str("unsupported manifest schema ");
                push_decimal(&mut m, *found as u64);
                push_str(&mut m, " (this build of qeet supports schema 1)");
                m
            },
            LoadError::Invalid { origin, issues } => {
                let mut m = String::from_str("invalid manifest");
                let l = location_text(origin.as_str());
                push_str(&mut m, l.as_str());
                push_str(&mut m, ":\n");
                let r = render_issues(issues);
                push_str(&mut m, r.as_str());
                m
            }}
    }
}

} // verus!
