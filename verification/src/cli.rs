//! The command line, as values.
//!
//! Intentionally small: one subcommand and three options. Every addition here is a promise
//! to keep supporting it, so the surface promises as little as it can while solving the
//! problem completely. Reading the process's arguments is the caller's work; the arguments
//! and the rules for their values are here.
use vstd::prelude::*;

use crate::git::status::{all_digits, digits_value, lemma_digits_value_monotone};
use crate::remote::Protocol;
use crate::text::{is_ascii_digit, is_digit, push_str, sub_vec};

verus! {

broadcast use vstd::string::group_string_axioms;

/// Hard ceiling on `--concurrency`. There is no unlimited mode: dozens of concurrent git
/// processes would exhaust file descriptors and invite rate limiting.
pub const MAX_CONCURRENCY: usize = 64;

/// The parsed command line.
#[derive(Debug)]
pub struct Cli {
    pub command: Command,
}

/// The subcommands.
#[derive(Debug)]
pub enum Command {
    /// Clone every repository belonging to a product, concurrently.
    Clone(CloneArgs),
}

/// The arguments of `qeet clone`.
#[derive(Debug)]
pub struct CloneArgs {
    /// Product to clone, e.g. `id`.
    pub product: String,
    /// Maximum number of repositories to clone at once; between 1 and [`MAX_CONCURRENCY`].
    pub concurrency: Option<usize>,
    /// Git transport to use, overriding the manifest default.
    pub protocol: Option<Protocol>,
    /// Manifest to use instead of the registry built into the binary.
    pub manifest: Option<String>,
}

/// `str::parse::<usize>`: an optional `+`, then at least one ASCII digit, and no overflow.
pub open spec fn parse_usize(s: Seq<char>) -> Option<usize> {
    let d = if s.len() > 0 && s[0] == '+' {
        s.drop_first()
    } else {
        s
    };
    if d.len() > 0 && all_digits(d) && digits_value(d) <= usize::MAX {
        Some(digits_value(d) as usize)
    } else {
        None
    }
}

/// Parse a whole number the way `str::parse::<usize>` does.
pub fn parse_whole_number(raw: &str) -> (r: Option<usize>)
    ensures
        r == parse_usize(raw@),
{
    let v = crate::text::chars_of(raw);
    let start: usize = if v.len() > 0 && v[0] == '+' {
        1
    } else {
        0
    };
    let d = sub_vec(&v, start, v.len());
    let ghost dd = if v@.len() > 0 && v@[0] == '+' {
        v@.drop_first()
    } else {
        v@
    };
    assert(d@ == dd);
    if d.len() == 0 {
        return None;
    }
    let mut acc: u128 = 0;
    let mut i: usize = 0;
    while i < d.len()
        invariant
            d@ == dd,
            v@ == raw@,
            dd == if v@.len() > 0 && v@[0] == '+' {
                v@.drop_first()
            } else {
                v@
            },
            i <= d@.len(),
            forall|k: int| 0 <= k < i ==> is_ascii_digit(#[trigger] d@[k]),
            acc == digits_value(d@.take(i as int)),
            acc <= usize::MAX,
        decreases d@.len() - i,
    {
        let c = d[i];
        if !is_digit(c) {
            assert(!is_ascii_digit(dd[i as int]));
            assert(!all_digits(dd));
            return None;
        }
        assert(d@.take(i + 1).drop_last() == d@.take(i as int));
        let next = acc * 10 + (c as u32 - '0' as u32) as u128;
        if next > usize::MAX as u128 {
            proof {
                assert(next == digits_value(d@.take(i + 1)));
                if all_digits(dd) {
                    lemma_digits_value_monotone(dd, i + 1);
                }
            }
            return None;
        }
        acc = next;
        i = i + 1;
    }
    assert(d@.take(d@.len() as int) == d@);
    Some(acc as usize)
}

/// Why a `--concurrency` value is refused, or the value.
pub open spec fn concurrency_outcome(raw: Seq<char>) -> Result<usize, Seq<char>> {
    match parse_usize(raw) {
        None => Err("`"@ + raw + "` is not a whole number"@),
        Some(n) => if n == 0 {
            Err("concurrency must be at least 1"@)
        } else if n > MAX_CONCURRENCY {
            Err("concurrency must be at most 64"@)
        } else {
            Ok(n)
        },
    }
}

/// Reject zero and absurd values with a message that says what to do.
pub fn parse_concurrency(raw: &str) -> (r: Result<usize, String>)
    ensures
        match r {
            Ok(n) => concurrency_outcome(raw@) == Ok::<usize, Seq<char>>(n),
            Err(m) => concurrency_outcome(raw@) == Err::<usize, Seq<char>>(m@),
        },
{
    match parse_whole_number(raw) {
        None => {
            let mut m = String::from_str("`");
            push_str(&mut m, raw);
            push_str(&mut m, "` is not a whole number");
            Err(m)
        },
        Some(n) => {
            if n == 0 {
                Err(String::from_str("concurrency must be at least 1"))
            } else if n > MAX_CONCURRENCY {
                Err(String::from_str("concurrency must be at most 64"))
            } else {
                Ok(n)
            }
        },
    }
}

} // verus!
