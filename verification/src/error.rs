//! The exit-code contract.
//!
//! Exit codes are a public interface -- scripts depend on them -- so they are defined in
//! one place. git's own exit code is never re-used as ours: git reports almost everything
//! as 128, which would tell a caller nothing.
use vstd::prelude::*;

verus! {

/// Every repository reached the state the developer asked for.
pub const EXIT_SUCCESS: u8 = 0;

/// One or more repositories failed, or the run was cancelled.
pub const EXIT_INCOMPLETE: u8 = 1;

/// Command-line misuse.
pub const EXIT_USAGE: u8 = 2;

/// Configuration problem: an unusable manifest, an unknown product, or no usable git.
pub const EXIT_CONFIG: u8 = 3;

/// The exit code of a run that produced a report: success only when it is complete.
pub fn run_exit_code(complete: bool) -> (code: u8)
    ensures
        code == if complete {
            EXIT_SUCCESS
        } else {
            EXIT_INCOMPLETE
        },
{
    if complete {
        EXIT_SUCCESS
    } else {
        EXIT_INCOMPLETE
    }
}

/// The exit code when the command line could not be used as given. Help and version
/// requests were satisfied, not misuse, and are printed to stdout rather than stderr.
pub fn argument_exit_code(printed_to_stderr: bool) -> (code: u8)
    ensures
        code == if printed_to_stderr {
            EXIT_USAGE
        } else {
            EXIT_SUCCESS
        },
{
    if printed_to_stderr {
        EXIT_USAGE
    } else {
        EXIT_SUCCESS
    }
}

/// Law: the documented exit codes are distinct, so a script can tell every outcome apart.
pub proof fn law_exit_codes_are_distinct()
    ensures
        EXIT_SUCCESS != EXIT_INCOMPLETE,
        EXIT_SUCCESS != EXIT_USAGE,
        EXIT_SUCCESS != EXIT_CONFIG,
        EXIT_INCOMPLETE != EXIT_USAGE,
        EXIT_INCOMPLETE != EXIT_CONFIG,
        EXIT_USAGE != EXIT_CONFIG,
{
}

} // verus!
