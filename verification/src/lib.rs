//! Product-aware cloning for a polyrepo organization: the verified core of the `qeet` CLI.
use vstd::prelude::*;

pub mod cli;
pub mod clone;
pub mod commands;
pub mod error;
pub mod git;
pub mod manifest;
pub mod output;
pub mod product;
pub mod remote;
pub mod text;
pub mod workspace;

verus! {

} // verus!
