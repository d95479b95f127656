//! The `git` adapter's decisions.
//!
//! `qeet` orchestrates git; it does not reimplement it. Running the executable is the
//! application's job; what to run, and what its answers mean, is decided here.
use vstd::prelude::*;

pub mod classify;
pub mod status;

pub use classify::FailureKind;

use crate::text::{chars_of, push_str, trim, trim_bounds, string_of_range};
use classify::{classification, classify, guidance_text, relevant, relevant_stderr, str_views, summary_text};
use status::describe_status;

verus! {

broadcast use vstd::string::group_string_axioms;

/// One repository to clone.
#[derive(Debug, Clone, PartialEq, Eq)]
pub struct CloneRequest {
    /// Repository name, used in messages.
    pub name: String,
    /// Already validated by [`crate::remote::validate`].
    pub url: String,
    /// Where git will put the working tree.
    pub destination: String,
    /// Branch or tag to clone, when the manifest pins one.
    pub git_ref: Option<String>,
}

/// Why a clone did not succeed.
#[derive(Debug, Clone, PartialEq, Eq)]
pub struct Failure {
    pub kind: FailureKind,
    /// git's exit code, absent when git could not be run at all.
    pub exit_code: Option<i32>,
    /// The lines of git's own stderr worth showing, verbatim. Never invented.
    pub git_stderr: String,
}

impl Failure {
    /// A one-line summary in the CLI's voice.
    pub fn summary(&self) -> (s: &'static str)
        ensures
            s@ == summary_text(self.kind),
    {
        self.kind.summary()
    }

    /// Concrete next steps.
    pub fn guidance(&self) -> (g: Vec<&'static str>)
        ensures
            str_views(g@) == guidance_text(self.kind),
    {
        self.kind.guidance()
    }

    pub fn retryable(&self) -> (r: bool)
        ensures
            r == (self.kind == FailureKind::Transient),
    {
        self.kind.retryable()
    }
}

/// `git` itself is unusable, which is a configuration problem rather than a clone failure.
#[derive(Debug, Clone, PartialEq, Eq)]
pub enum GitError {
    NotFound,
    Unusable(String),
}

impl GitError {
    /// The message shown to the user.
    pub fn message(&self) -> (m: String)
        ensures
            m@ == match self {
                GitError::NotFound =>
                    "`git` was not found. Install git and make sure it is on your PATH."@,
                GitError::Unusable(why) => "`git` could not be run: "@ + why@,
            },
    {
        match self {
            GitError::NotFound => String::from_str(
                "`git` was not found. Install git and make sure it is on your PATH.",
            ),
            GitError::Unusable(why) => {
                let mut m = String::from_str("`git` could not be run: ");
                push_str(&mut m, why.as_str());
                m
            },
        }
    }
}

/// The argument vector of a clone: `clone --progress [--branch <ref>] -- <url> <destination>`.
/// The `--` stops git reading a URL or destination as an option, which together with
/// [`crate::remote::validate`] closes off argument injection.
pub open spec fn clone_argv(request: CloneRequest) -> Seq<Seq<char>> {
    let head = seq!["clone"@, "--progress"@];
    let pinned = match request.git_ref {
        Some(r) => head + seq!["--branch"@, r@],
        None => head,
    };
    pinned + seq!["--"@, request.url@, request.destination@]
}

/// Law: the URL and the destination are always the last two arguments, right after `--`,
/// so git never reads either of them as an option.
pub proof fn law_positionals_follow_double_dash(request: CloneRequest)
    ensures
        clone_argv(request).len() >= 3,
        clone_argv(request)[clone_argv(request).len() - 3] == "--"@,
        clone_argv(request)[clone_argv(request).len() - 2] == request.url@,
        clone_argv(request).last() == request.destination@,
{
}

/// The views of a list of strings.
pub open spec fn string_views(v: Seq<String>) -> Seq<Seq<char>> {
    v.map_values(|s: String| s@)
}

/// Build the argument vector for a clone.
pub fn clone_args(request: &CloneRequest) -> (args: Vec<String>)
    ensures
        string_views(args@) == clone_argv(*request),
{
    let mut args: Vec<String> = Vec::new();
    args.push(String::from_str("clone"));
    args.push(String::from_str("--progress"));
    if let Some(git_ref) = &request.git_ref {
        args.push(String::from_str("--branch"));
        args.push(git_ref.clone());
    }
    args.push(String::from_str("--"));
    args.push(request.url.clone());
    args.push(request.destination.clone());
    assert(string_views(args@) =~= clone_argv(*request));
    args
}

/// The failure recorded when git ran and exited unsuccessfully: classified from its stderr,
/// with its exit code and the lines of its stderr worth showing.
pub fn failure_from_output(stderr: &str, exit_code: Option<i32>) -> (f: Failure)
    ensures
        f.kind == classification(stderr@),
        f.exit_code == exit_code,
        f.git_stderr@ == relevant(stderr@),
{
    Failure { kind: classify(stderr), exit_code, git_stderr: relevant_stderr(stderr) }
}

/// The failure recorded when git could not be started at all.
pub fn spawn_failure(error: &str) -> (f: Failure)
    ensures
        f.kind == FailureKind::Spawn,
        f.exit_code is None,
        f.git_stderr@ == error@,
{
    Failure { kind: FailureKind::Spawn, exit_code: None, git_stderr: String::from_str(error) }
}

/// The `origin` of a repository from `git config --get remote.origin.url`: none when git
/// exited unsuccessfully -- no origin configured, or not a repository, which is absence of
/// an answer rather than a broken git -- or printed nothing but whitespace.
pub open spec fn origin_of(success: bool, stdout: Seq<char>) -> Option<Seq<char>> {
    if !success || trim(stdout).len() == 0 {
        None
    } else {
        Some(trim(stdout))
    }
}

/// The `origin` of a repository, from how `git config --get remote.origin.url` ended.
pub fn origin_from_output(success: bool, stdout: &str) -> (o: Option<String>)
    ensures
        crate::text::opt_view(o) == origin_of(success, stdout@),
{
    if !success {
        return None;
    }
    let c = chars_of(stdout);
    let (from, to) = trim_bounds(&c, 0, c.len());
    assert(c@.subrange(0, c@.len() as int) == c@);
    if from == to {
        return None;
    }
    Some(string_of_range(&c, from, to))
}

/// The error when `git status` fails in a repository.
pub fn status_failed(repository: &str, stderr: &str) -> (e: GitError)
    ensures
        e matches GitError::Unusable(m) && m@ == "`git status` failed in "@ + repository@ + ": "@
            + relevant(stderr@),
{
    let mut m = String::from_str("`git status` failed in ");
    push_str(&mut m, repository);
    push_str(&mut m, ": ");
    let r = relevant_stderr(stderr);
    push_str(&mut m, r.as_str());
    GitError::Unusable(m)
}

/// The error when `git --version` runs but fails.
pub fn version_failed(code: Option<i32>) -> (e: GitError)
    ensures
        e matches GitError::Unusable(m) && m@ == "`git --version` exited with "@ + match code {
            Some(c) => "code "@ + crate::text::signed_decimal(c as int),
            None => "a signal"@,
        },
{
    let mut m = String::from_str("`git --version` exited with ");
    let d = describe_status(code);
    push_str(&mut m, d.as_str());
    GitError::Unusable(m)
}

/// The `.git` entry whose presence marks a directory as a git repository; in a worktree or
/// submodule it is a file rather than a directory.
pub fn git_entry(directory: &str) -> (p: String)
    ensures
        p@ == crate::workspace::join_path(directory@, ".git"@),
{
    crate::workspace::join_paths(directory, ".git")
}

} // verus!
