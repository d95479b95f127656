//! The opening moves every command shares: naming the manifest in effect, canonicalising a
//! product key, and finding where a repository lives.
use vstd::prelude::*;

use crate::manifest::source::{Origin, OriginView, origin_text};
use crate::manifest::{Manifest, Product, ProductView, group_dir_of};
use crate::product::normalised;
use crate::text::{chars_of, lowercase, string_of, sub_vec, trim_bounds};
use crate::workspace::{Workspace, join_path, join_paths};

verus! {

/// A loaded, validated manifest and where it came from.
pub struct Loaded {
    pub manifest: Manifest,
    /// The manifest's origin, but only when it is *not* the built-in registry. Commands show
    /// this so a stale override is never invisible.
    pub note: Option<String>,
}

/// The note shown for a manifest's origin: none for the built-in registry.
pub open spec fn note_of(origin: OriginView) -> Option<Seq<char>> {
    match origin {
        OriginView::Embedded => None,
        _ => Some(origin_text(origin)),
    }
}

/// The note shown for a manifest's origin.
pub fn note_for(origin: &Origin) -> (n: Option<String>)
    ensures
        crate::text::opt_view(n) == note_of(origin@),
{
    match origin {
        Origin::Embedded => None,
        _ => Some(origin.describe()),
    }
}

/// The manifest's own spelling of the key the user typed, since lookup is case-insensitive:
/// the request trimmed and lowercased, which is the spelling validation holds every key to.
pub fn canonical_key(requested: &str) -> (k: String)
    ensures
        k@ == normalised(requested@),
{
    let c = chars_of(requested);
    let (from, to) = trim_bounds(&c, 0, c.len());
    assert(c@.subrange(0, c@.len() as int) == c@);
    string_of(&lowercase(&sub_vec(&c, from, to)))
}

/// Where a repository of a product lives: the workspace root, the product's directory when
/// it has one, then the repository's relative path.
pub open spec fn destination_of(root: Seq<char>, product: ProductView, relative: Seq<char>) -> Seq<
    char,
> {
    match group_dir_of(product) {
        Some(dir) => join_path(join_path(root, dir), relative),
        None => join_path(root, relative),
    }
}

/// Absolute destination for a repository, mirroring what `clone` would produce.
pub fn destination(workspace: &Workspace, product: &Product, relative: &str) -> (d: String)
    ensures
        d@ == destination_of(workspace@, product@, relative@),
{
    match product.group_dir() {
        Some(dir) => {
            let base = join_paths(workspace.root(), dir);
            join_paths(base.as_str(), relative)
        },
        None => join_paths(workspace.root(), relative),
    }
}

} // verus!
