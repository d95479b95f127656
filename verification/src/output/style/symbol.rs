//! The symbol for a state. Paired with colour, never replaced by it.
use vstd::prelude::*;

verus! {

pub const OK: &'static str = "✓";

pub const BAD: &'static str = "✗";

pub const SKIP: &'static str = "·";

pub const PENDING: &'static str = "○";

pub const WARN: &'static str = "!";

} // verus!
