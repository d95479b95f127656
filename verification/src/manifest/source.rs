//! Where the manifest comes from.
//!
//! Precedence, first hit wins:
//!
//! 1. `--manifest <PATH>`
//! 2. the `QEET_MANIFEST` environment variable
//! 3. `<config-dir>/qeet/products.toml`
//! 4. the manifest embedded in the binary
//!
//! Reading the chosen file is the caller's work; this module decides which tier applies.
use vstd::prelude::*;

use crate::text::{copy_string, push_str};

verus! {

broadcast use vstd::string::group_string_axioms;

/// Environment variable holding a manifest path.
pub const ENV_VAR: &'static str = "QEET_MANIFEST";

/// Which of the four tiers a manifest was read from.
#[derive(Debug, Clone, PartialEq, Eq)]
pub enum Origin {
    Flag(String),
    Environment(String),
    UserConfig(String),
    Embedded,
}

/// An origin as a value of the specification.
pub enum OriginView {
    Flag(Seq<char>),
    Environment(Seq<char>),
    UserConfig(Seq<char>),
    Embedded,
}

impl View for Origin {
    type V = OriginView;

    open spec fn view(&self) -> OriginView {
        match self {
            Origin::Flag(p) => OriginView::Flag(p@),
            Origin::Environment(p) => OriginView::Environment(p@),
            Origin::UserConfig(p) => OriginView::UserConfig(p@),
            Origin::Embedded => OriginView::Embedded,
        }
    }
}

/// How an origin is named to the user.
pub open spec fn origin_text(o: OriginView) -> Seq<char> {
    match o {
        OriginView::Flag(p) => "--manifest "@ + p,
        OriginView::Environment(p) => "QEET_MANIFEST="@ + p,
        OriginView::UserConfig(p) => p,
        OriginView::Embedded => "built-in manifest"@,
    }
}

impl Origin {
    /// How this origin is named to the user.
    pub fn describe(&self) -> (s: String)
        ensures
            s@ == origin_text(self@),
    {
        match self {
            Origin::Flag(p) => {
                let mut s = String::from_str("--manifest ");
                push_str(&mut s, p.as_str());
                s
            },
            Origin::Environment(p) => {
                let mut s = String::from_str(ENV_VAR);
                push_str(&mut s, "=");
                push_str(&mut s, p.as_str());
                proof {
                    reveal_strlit("QEET_MANIFEST");
                    reveal_strlit("=");
                    reveal_strlit("QEET_MANIFEST=");
                    assert("QEET_MANIFEST"@ + "="@ =~= "QEET_MANIFEST="@);
                }
                s
            },
            Origin::UserConfig(p) => copy_string(p),
            Origin::Embedded => String::from_str("built-in manifest"),
        }
    }
}

/// Manifest text together with where it came from.
#[derive(Debug, Clone)]
pub struct Loaded {
    pub origin: Origin,
    pub text: String,
}

/// The tier that applies: the flag, else a non-empty environment variable, else the user
/// configuration file when it exists, else the embedded manifest.
///
/// An empty environment variable is treated as unset rather than as the current directory.
/// An absent user configuration file is normal and silent.
pub open spec fn chosen_origin(
    flag: Option<Seq<char>>,
    env: Option<Seq<char>>,
    user_config: Option<Seq<char>>,
    user_config_exists: bool,
) -> OriginView {
    match flag {
        Some(p) => OriginView::Flag(p),
        None => match env {
            Some(v) if v.len() > 0 => OriginView::Environment(v),
            _ => match user_config {
                Some(p) if user_config_exists => OriginView::UserConfig(p),
                _ => OriginView::Embedded,
            },
        },
    }
}

/// Choose the tier a manifest is read from, given the flag, the environment variable, the
/// user configuration path and whether a file exists there.
///
/// Every tier but the embedded one names a file the caller must then read; a file that
/// cannot be read is an error, never a reason to fall through to the next tier.
pub fn choose_origin(
    flag: Option<String>,
    env: Option<String>,
    user_config: Option<String>,
    user_config_exists: bool,
) -> (o: Origin)
    ensures
        o@ == chosen_origin(
            crate::text::opt_view(flag),
            crate::text::opt_view(env),
            crate::text::opt_view(user_config),
            user_config_exists,
        ),
{
    if let Some(path) = flag {
        return Origin::Flag(path);
    }
    if let Some(value) = env {
        if !value.as_str().is_empty() {
            return Origin::Environment(value);
        }
    }
    if let Some(path) = user_config {
        if user_config_exists {
            return Origin::UserConfig(path);
        }
    }
    Origin::Embedded
}

} // verus!
