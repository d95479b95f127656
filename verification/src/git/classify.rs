//! Turning a git failure into something a developer can act on.
//!
//! git reports almost everything as exit code 128, so the exit code alone is close to
//! useless. The classification comes from git's stderr, and it decides two things: what the
//! user is told, and whether a retry could possibly help.
use vstd::prelude::*;

use crate::text::{
    Sep, chars_of, contains, contains_exec, join, lemma_lower_of_upper, lemma_lower_seq_idempotent, lower_seq,
    upper_seq, lowercase, push_chars, split, split_exec,
    starts_with, starts_with_exec, trim, trim_bounds, views,
};

verus! {

broadcast use vstd::string::group_string_axioms;

/// What went wrong, in categories that imply different responses.
#[derive(Debug, Clone, Copy, PartialEq, Eq, Structural)]
pub enum FailureKind {
    /// Credentials or key were rejected, or git had no way to ask for them.
    Auth,
    /// The remote says there is no such repository -- which GitHub also reports when you
    /// simply cannot see a private one.
    NotFound,
    /// The repository is there but the requested branch or tag is not.
    InvalidRef,
    /// Network or transport trouble that might not happen again.
    Transient,
    /// Something local blocked the clone, e.g. the destination is not empty.
    Workspace,
    /// Unrecognised. Reported verbatim and never retried.
    Unknown,
    /// git could not be started at all.
    Spawn,
}

pub open spec fn summary_text(kind: FailureKind) -> Seq<char> {
    match kind {
        FailureKind::Auth => "Git authentication failed."@,
        FailureKind::NotFound => "The repository does not exist, or you cannot access it."@,
        FailureKind::InvalidRef => "The requested branch or tag does not exist on the remote."@,
        FailureKind::Transient => "The connection to the remote failed."@,
        FailureKind::Workspace => "Git refused to write to the destination."@,
        FailureKind::Unknown => "Git failed."@,
        FailureKind::Spawn => "Git could not be started."@,
    }
}

pub open spec fn guidance_text(kind: FailureKind) -> Seq<Seq<char>> {
    match kind {
        FailureKind::Auth => seq![
            "Check your SSH key or credential helper for this host."@,
            "For SSH, `ssh -T git@github.com` should greet you by username."@,
            "qeet runs git non-interactively, so git cannot prompt for a password."@,
        ],
        FailureKind::NotFound => seq![
            "Confirm the repository name in the manifest."@,
            "If it is private, confirm your account has access to it."@,
        ],
        FailureKind::InvalidRef => seq!["Check the `ref` for this repository in the manifest."@],
        FailureKind::Transient => seq![
            "Check your network connection or proxy configuration."@,
            "This kind of failure is retried automatically; it did not recover."@,
        ],
        FailureKind::Workspace => seq!["Inspect the destination directory, then run qeet again."@],
        FailureKind::Unknown => seq!["The git output above is the whole story qeet has."@],
        FailureKind::Spawn => seq!["Install git and make sure it is on your PATH."@],
    }
}

/// The views of a list of static strings.
pub open spec fn str_views(v: Seq<&'static str>) -> Seq<Seq<char>> {
    v.map_values(|s: &'static str| s@)
}

impl FailureKind {
    /// A one-line summary in the CLI's voice.
    pub fn summary(self) -> (s: &'static str)
        ensures
            s@ == summary_text(self),
    {
        match self {
            FailureKind::Auth => "Git authentication failed.",
            FailureKind::NotFound => "The repository does not exist, or you cannot access it.",
            FailureKind::InvalidRef => "The requested branch or tag does not exist on the remote.",
            FailureKind::Transient => "The connection to the remote failed.",
            FailureKind::Workspace => "Git refused to write to the destination.",
            FailureKind::Unknown => "Git failed.",
            FailureKind::Spawn => "Git could not be started.",
        }
    }

    /// Concrete next steps. Deliberately short: enough to fix it, not a wall of text.
    pub fn guidance(self) -> (g: Vec<&'static str>)
        ensures
            str_views(g@) == guidance_text(self),
            g@.len() > 0,
    {
        let g = match self {
            FailureKind::Auth => vec![
                "Check your SSH key or credential helper for this host.",
                "For SSH, `ssh -T git@github.com` should greet you by username.",
                "qeet runs git non-interactively, so git cannot prompt for a password.",
            ],
            FailureKind::NotFound => vec![
                "Confirm the repository name in the manifest.",
                "If it is private, confirm your account has access to it.",
            ],
            FailureKind::InvalidRef => vec!["Check the `ref` for this repository in the manifest."],
            FailureKind::Transient => vec![
                "Check your network connection or proxy configuration.",
                "This kind of failure is retried automatically; it did not recover.",
            ],
            FailureKind::Workspace => vec![
                "Inspect the destination directory, then run qeet again.",
            ],
            FailureKind::Unknown => vec!["The git output above is the whole story qeet has."],
            FailureKind::Spawn => vec!["Install git and make sure it is on your PATH."],
        };
        assert(str_views(g@) =~= guidance_text(self));
        g
    }

    /// Only transient transport failures are worth another attempt. Retrying an
    /// authentication failure or a missing repository just wastes the developer's time and
    /// hammers the remote.
    pub fn retryable(self) -> (r: bool)
        ensures
            r == (self == FailureKind::Transient),
    {
        match self {
            FailureKind::Transient => true,
            _ => false,
        }
    }
}

// ---------------------------------------------------------------------------------------
// Classification
// ---------------------------------------------------------------------------------------

/// How many patterns there are.
pub open spec fn pattern_count() -> int {
    45
}

/// The `i`-th pattern and what it means. Longest, most specific patterns first: `could not
/// read Username` also contains `Username`, and an auth diagnosis is more useful than a
/// generic one.
pub open spec fn pattern(i: int) -> (Seq<char>, FailureKind) {
    if i == 0 { ("permission denied (publickey)"@, FailureKind::Auth) }
    else if i == 1 { ("permission denied (password"@, FailureKind::Auth) }
    else if i == 2 { ("authentication failed"@, FailureKind::Auth) }
    else if i == 3 { ("could not read username"@, FailureKind::Auth) }
    else if i == 4 { ("could not read password"@, FailureKind::Auth) }
    else if i == 5 { ("terminal prompts disabled"@, FailureKind::Auth) }
    else if i == 6 { ("host key verification failed"@, FailureKind::Auth) }
    else if i == 7 { ("permission denied, please try again"@, FailureKind::Auth) }
    else if i == 8 { ("invalid username or password"@, FailureKind::Auth) }
    else if i == 9 { ("access denied"@, FailureKind::Auth) }
    else if i == 10 { ("403 forbidden"@, FailureKind::Auth) }
    else if i == 11 { ("you do not have permission"@, FailureKind::Auth) }
    else if i == 12 { ("repository not found"@, FailureKind::NotFound) }
    else if i == 13 { ("does not appear to be a git repository"@, FailureKind::NotFound) }
    else if i == 14 { ("not found: did you run git update-server-info"@, FailureKind::NotFound) }
    else if i == 15 { ("no such file or directory"@, FailureKind::NotFound) }
    else if i == 16 { ("404 not found"@, FailureKind::NotFound) }
    else if i == 17 { ("remote branch"@, FailureKind::InvalidRef) }
    else if i == 18 { ("could not find remote ref"@, FailureKind::InvalidRef) }
    else if i == 19 { ("couldn't find remote ref"@, FailureKind::InvalidRef) }
    else if i == 20 { ("could not resolve host"@, FailureKind::Transient) }
    else if i == 21 { ("could not resolve hostname"@, FailureKind::Transient) }
    else if i == 22 { ("connection reset by peer"@, FailureKind::Transient) }
    else if i == 23 { ("connection timed out"@, FailureKind::Transient) }
    else if i == 24 { ("connection refused"@, FailureKind::Transient) }
    else if i == 25 { ("connection closed by remote host"@, FailureKind::Transient) }
    else if i == 26 { ("operation timed out"@, FailureKind::Transient) }
    else if i == 27 { ("timed out"@, FailureKind::Transient) }
    else if i == 28 { ("network is unreachable"@, FailureKind::Transient) }
    else if i == 29 { ("temporary failure in name resolution"@, FailureKind::Transient) }
    else if i == 30 { ("the remote end hung up unexpectedly"@, FailureKind::Transient) }
    else if i == 31 { ("rpc failed"@, FailureKind::Transient) }
    else if i == 32 { ("early eof"@, FailureKind::Transient) }
    else if i == 33 { ("unexpected disconnect"@, FailureKind::Transient) }
    else if i == 34 { ("ssl_read"@, FailureKind::Transient) }
    else if i == 35 { ("gnutls_handshake() failed"@, FailureKind::Transient) }
    else if i == 36 { ("openssl ssl_read"@, FailureKind::Transient) }
    else if i == 37 { ("502 bad gateway"@, FailureKind::Transient) }
    else if i == 38 { ("503 service unavailable"@, FailureKind::Transient) }
    else if i == 39 { ("504 gateway"@, FailureKind::Transient) }
    else if i == 40 { ("failed to connect to"@, FailureKind::Transient) }
    else if i == 41 { ("already exists and is not an empty directory"@, FailureKind::Workspace) }
    else if i == 42 { ("permission denied (os error 13)"@, FailureKind::Workspace) }
    else if i == 43 { ("no space left on device"@, FailureKind::Workspace) }
    else { ("read-only file system"@, FailureKind::Workspace) }
}

fn pattern_at(i: usize) -> (p: (&'static str, FailureKind))
    requires
        i < pattern_count(),
    ensures
        p.0@ == pattern(i as int).0,
        p.1 == pattern(i as int).1,
{
    match i {
        0 => ("permission denied (publickey)", FailureKind::Auth),
        1 => ("permission denied (password", FailureKind::Auth),
        2 => ("authentication failed", FailureKind::Auth),
        3 => ("could not read username", FailureKind::Auth),
        4 => ("could not read password", FailureKind::Auth),
        5 => ("terminal prompts disabled", FailureKind::Auth),
        6 => ("host key verification failed", FailureKind::Auth),
        7 => ("permission denied, please try again", FailureKind::Auth),
        8 => ("invalid username or password", FailureKind::Auth),
        9 => ("access denied", FailureKind::Auth),
        10 => ("403 forbidden", FailureKind::Auth),
        11 => ("you do not have permission", FailureKind::Auth),
        12 => ("repository not found", FailureKind::NotFound),
        13 => ("does not appear to be a git repository", FailureKind::NotFound),
        14 => ("not found: did you run git update-server-info", FailureKind::NotFound),
        15 => ("no such file or directory", FailureKind::NotFound),
        16 => ("404 not found", FailureKind::NotFound),
        17 => ("remote branch", FailureKind::InvalidRef),
        18 => ("could not find remote ref", FailureKind::InvalidRef),
        19 => ("couldn't find remote ref", FailureKind::InvalidRef),
        20 => ("could not resolve host", FailureKind::Transient),
        21 => ("could not resolve hostname", FailureKind::Transient),
        22 => ("connection reset by peer", FailureKind::Transient),
        23 => ("connection timed out", FailureKind::Transient),
        24 => ("connection refused", FailureKind::Transient),
        25 => ("connection closed by remote host", FailureKind::Transient),
        26 => ("operation timed out", FailureKind::Transient),
        27 => ("timed out", FailureKind::Transient),
        28 => ("network is unreachable", FailureKind::Transient),
        29 => ("temporary failure in name resolution", FailureKind::Transient),
        30 => ("the remote end hung up unexpectedly", FailureKind::Transient),
        31 => ("rpc failed", FailureKind::Transient),
        32 => ("early eof", FailureKind::Transient),
        33 => ("unexpected disconnect", FailureKind::Transient),
        34 => ("ssl_read", FailureKind::Transient),
        35 => ("gnutls_handshake() failed", FailureKind::Transient),
        36 => ("openssl ssl_read", FailureKind::Transient),
        37 => ("502 bad gateway", FailureKind::Transient),
        38 => ("503 service unavailable", FailureKind::Transient),
        39 => ("504 gateway", FailureKind::Transient),
        40 => ("failed to connect to", FailureKind::Transient),
        41 => ("already exists and is not an empty directory", FailureKind::Workspace),
        42 => ("permission denied (os error 13)", FailureKind::Workspace),
        43 => ("no space left on device", FailureKind::Workspace),
        _ => ("read-only file system", FailureKind::Workspace),
    }
}

/// Does the `i`-th pattern decide the classification of `haystack`? The bare words `remote
/// branch` also appear in unrelated advice, so that pattern only counts alongside `not
/// found`.
pub open spec fn pattern_applies(haystack: Seq<char>, i: int) -> bool {
    &&& contains(haystack, pattern(i).0)
    &&& !(i == 17 && !contains(haystack, "not found"@))
}

/// The kind of the first pattern, from the `i`-th on, that applies.
pub open spec fn classify_from(haystack: Seq<char>, i: int) -> FailureKind
    decreases pattern_count() - i,
{
    if i < 0 || i >= pattern_count() {
        FailureKind::Unknown
    } else if pattern_applies(haystack, i) {
        pattern(i).1
    } else {
        classify_from(haystack, i + 1)
    }
}

/// The classification of git's stderr: the kind of the first pattern that occurs in it,
/// compared case-insensitively, and `Unknown` when none does.
pub open spec fn classification(stderr: Seq<char>) -> FailureKind {
    classify_from(lower_seq(stderr), 0)
}

// ---------------------------------------------------------------------------------------
// What each kind of message means
// ---------------------------------------------------------------------------------------

/// A message that says authentication was refused or impossible.
pub open spec fn is_auth_phrase(p: Seq<char>) -> bool {
    p == "permission denied (publickey)"@
    || p == "permission denied (password"@
    || p == "authentication failed"@
    || p == "could not read username"@
    || p == "could not read password"@
    || p == "terminal prompts disabled"@
    || p == "host key verification failed"@
    || p == "permission denied, please try again"@
    || p == "invalid username or password"@
    || p == "access denied"@
    || p == "403 forbidden"@
    || p == "you do not have permission"@
}

spec fn auth_index(p: Seq<char>) -> int {
    if p == "permission denied (publickey)"@ {
        0
    } else if p == "permission denied (password"@ {
        1
    } else if p == "authentication failed"@ {
        2
    } else if p == "could not read username"@ {
        3
    } else if p == "could not read password"@ {
        4
    } else if p == "terminal prompts disabled"@ {
        5
    } else if p == "host key verification failed"@ {
        6
    } else if p == "permission denied, please try again"@ {
        7
    } else if p == "invalid username or password"@ {
        8
    } else if p == "access denied"@ {
        9
    } else if p == "403 forbidden"@ {
        10
    } else {
        11
    }
}

proof fn lemma_auth_index(p: Seq<char>)
    requires
        is_auth_phrase(p),
    ensures
        0 <= auth_index(p) < 12,
        pattern(auth_index(p)).0 == p,
        forall|k: int| 0 <= k < 12 ==> #[trigger] pattern(k).1 == FailureKind::Auth,
        forall|k: int| 0 <= k < 12 ==> is_auth_phrase(#[trigger] pattern(k).0),
{
}

/// A message that says the repository does not exist, or is not visible.
pub open spec fn is_not_found_phrase(p: Seq<char>) -> bool {
    p == "repository not found"@
    || p == "does not appear to be a git repository"@
    || p == "not found: did you run git update-server-info"@
    || p == "no such file or directory"@
    || p == "404 not found"@
}

spec fn not_found_index(p: Seq<char>) -> int {
    if p == "repository not found"@ {
        12
    } else if p == "does not appear to be a git repository"@ {
        13
    } else if p == "not found: did you run git update-server-info"@ {
        14
    } else if p == "no such file or directory"@ {
        15
    } else {
        16
    }
}

proof fn lemma_not_found_index(p: Seq<char>)
    requires
        is_not_found_phrase(p),
    ensures
        12 <= not_found_index(p) < 17,
        pattern(not_found_index(p)).0 == p,
        forall|k: int| 12 <= k < 17 ==> #[trigger] pattern(k).1 == FailureKind::NotFound,
        forall|k: int| 12 <= k < 17 ==> is_not_found_phrase(#[trigger] pattern(k).0),
{
}

/// A message that says the requested branch or tag does not exist.
pub open spec fn is_missing_ref_phrase(p: Seq<char>) -> bool {
    p == "remote branch"@
    || p == "could not find remote ref"@
    || p == "couldn't find remote ref"@
}

spec fn missing_ref_index(p: Seq<char>) -> int {
    if p == "remote branch"@ {
        17
    } else if p == "could not find remote ref"@ {
        18
    } else {
        19
    }
}

proof fn lemma_missing_ref_index(p: Seq<char>)
    requires
        is_missing_ref_phrase(p),
    ensures
        17 <= missing_ref_index(p) < 20,
        pattern(missing_ref_index(p)).0 == p,
        forall|k: int| 17 <= k < 20 ==> #[trigger] pattern(k).1 == FailureKind::InvalidRef,
        forall|k: int| 17 <= k < 20 ==> is_missing_ref_phrase(#[trigger] pattern(k).0),
{
}

/// A message that says the network or the remote failed for the moment.
pub open spec fn is_transient_phrase(p: Seq<char>) -> bool {
    p == "could not resolve host"@
    || p == "could not resolve hostname"@
    || p == "connection reset by peer"@
    || p == "connection timed out"@
    || p == "connection refused"@
    || p == "connection closed by remote host"@
    || p == "operation timed out"@
    || p == "timed out"@
    || p == "network is unreachable"@
    || p == "temporary failure in name resolution"@
    || p == "the remote end hung up unexpectedly"@
    || p == "rpc failed"@
    || p == "early eof"@
    || p == "unexpected disconnect"@
    || p == "ssl_read"@
    || p == "gnutls_handshake() failed"@
    || p == "openssl ssl_read"@
    || p == "502 bad gateway"@
    || p == "503 service unavailable"@
    || p == "504 gateway"@
    || p == "failed to connect to"@
}

spec fn transient_index(p: Seq<char>) -> int {
    if p == "could not resolve host"@ {
        20
    } else if p == "could not resolve hostname"@ {
        21
    } else if p == "connection reset by peer"@ {
        22
    } else if p == "connection timed out"@ {
        23
    } else if p == "connection refused"@ {
        24
    } else if p == "connection closed by remote host"@ {
        25
    } else if p == "operation timed out"@ {
        26
    } else if p == "timed out"@ {
        27
    } else if p == "network is unreachable"@ {
        28
    } else if p == "temporary failure in name resolution"@ {
        29
    } else if p == "the remote end hung up unexpectedly"@ {
        30
    } else if p == "rpc failed"@ {
        31
    } else if p == "early eof"@ {
        32
    } else if p == "unexpected disconnect"@ {
        33
    } else if p == "ssl_read"@ {
        34
    } else if p == "gnutls_handshake() failed"@ {
        35
    } else if p == "openssl ssl_read"@ {
        36
    } else if p == "502 bad gateway"@ {
        37
    } else if p == "503 service unavailable"@ {
        38
    } else if p == "504 gateway"@ {
        39
    } else {
        40
    }
}

proof fn lemma_transient_index(p: Seq<char>)
    requires
        is_transient_phrase(p),
    ensures
        20 <= transient_index(p) < 41,
        pattern(transient_index(p)).0 == p,
        forall|k: int| 20 <= k < 41 ==> #[trigger] pattern(k).1 == FailureKind::Transient,
        forall|k: int| 20 <= k < 41 ==> is_transient_phrase(#[trigger] pattern(k).0),
{
}

/// A message that says the local destination is unusable.
pub open spec fn is_workspace_phrase(p: Seq<char>) -> bool {
    p == "already exists and is not an empty directory"@
    || p == "permission denied (os error 13)"@
    || p == "no space left on device"@
    || p == "read-only file system"@
}

spec fn workspace_index(p: Seq<char>) -> int {
    if p == "already exists and is not an empty directory"@ {
        41
    } else if p == "permission denied (os error 13)"@ {
        42
    } else if p == "no space left on device"@ {
        43
    } else {
        44
    }
}

proof fn lemma_workspace_index(p: Seq<char>)
    requires
        is_workspace_phrase(p),
    ensures
        41 <= workspace_index(p) < 45,
        pattern(workspace_index(p)).0 == p,
        forall|k: int| 41 <= k < 45 ==> #[trigger] pattern(k).1 == FailureKind::Workspace,
        forall|k: int| 41 <= k < 45 ==> is_workspace_phrase(#[trigger] pattern(k).0),
{
}

proof fn lemma_none_apply(h: Seq<char>, a: int, b: int)
    requires
        0 <= a <= b <= pattern_count(),
        forall|i: int| a <= i < b ==> !pattern_applies(h, i),
    ensures
        classify_from(h, a) == classify_from(h, b),
    decreases b - a,
{
    if a < b {
        lemma_none_apply(h, a + 1, b);
    }
}

proof fn lemma_first_hit(h: Seq<char>, a: int, j: int) -> (k: int)
    requires
        0 <= a <= j < pattern_count(),
        pattern_applies(h, j),
    ensures
        a <= k <= j,
        classify_from(h, a) == pattern(k).1,
    decreases j - a,
{
    if pattern_applies(h, a) {
        a
    } else {
        lemma_first_hit(h, a + 1, j)
    }
}

/// Law: a message naming an authentication problem is classified as one, whatever else it
/// says -- authentication is the most specific diagnosis.
pub proof fn law_auth_messages_are_auth(stderr: Seq<char>, p: Seq<char>)
    requires
        is_auth_phrase(p),
        contains(lower_seq(stderr), p),
    ensures
        classification(stderr) == FailureKind::Auth,
{
    let h = lower_seq(stderr);
    lemma_auth_index(p);
    let k = lemma_first_hit(h, 0, auth_index(p));
    assert(pattern(k).1 == FailureKind::Auth);
}

/// Law: a message saying the repository is missing, with no authentication problem, is
/// classified as not found.
pub proof fn law_missing_repositories_are_not_found(stderr: Seq<char>, p: Seq<char>)
    requires
        is_not_found_phrase(p),
        contains(lower_seq(stderr), p),
        forall|q: Seq<char>| is_auth_phrase(q) ==> !contains(lower_seq(stderr), q),
    ensures
        classification(stderr) == FailureKind::NotFound,
{
    let h = lower_seq(stderr);
    lemma_auth_index("access denied"@);
    lemma_not_found_index(p);
    assert forall|i: int| 0 <= i < 12 implies !pattern_applies(h, i) by {
        assert(is_auth_phrase(pattern(i).0));
    }
    lemma_none_apply(h, 0, 12);
    let k = lemma_first_hit(h, 12, not_found_index(p));
    assert(pattern(k).1 == FailureKind::NotFound);
}

/// Law: a message saying the requested branch or tag is missing -- the bare words `remote
/// branch` only together with `not found` -- with no authentication problem and no missing
/// repository, is classified as a missing ref.
pub proof fn law_missing_refs_are_invalid_refs(stderr: Seq<char>, p: Seq<char>)
    requires
        is_missing_ref_phrase(p),
        contains(lower_seq(stderr), p),
        p == "remote branch"@ ==> contains(lower_seq(stderr), "not found"@),
        forall|q: Seq<char>|
            is_auth_phrase(q) || is_not_found_phrase(q) ==> !contains(lower_seq(stderr), q),
    ensures
        classification(stderr) == FailureKind::InvalidRef,
{
    let h = lower_seq(stderr);
    lemma_auth_index("access denied"@);
    lemma_not_found_index("404 not found"@);
    lemma_missing_ref_index(p);
    assert forall|i: int| 0 <= i < 17 implies !pattern_applies(h, i) by {
        if i < 12 {
            assert(is_auth_phrase(pattern(i).0));
        } else {
            assert(is_not_found_phrase(pattern(i).0));
        }
    }
    lemma_none_apply(h, 0, 17);
    let k = lemma_first_hit(h, 17, missing_ref_index(p));
    assert(pattern(k).1 == FailureKind::InvalidRef);
}

/// Is a missing ref reported: one of its phrases, `remote branch` only with `not found`?
pub open spec fn reports_missing_ref(h: Seq<char>) -> bool {
    exists|q: Seq<char>|
        is_missing_ref_phrase(q) && contains(h, q) && (q == "remote branch"@ ==> contains(
            h,
            "not found"@,
        ))
}

/// Law: a message saying the network or the remote failed for the moment -- a refused or
/// reset connection, a timeout, a name that does not resolve -- is classified as transient,
/// and so retried, unless it also names an authentication problem, a missing repository or
/// a missing ref, which retrying cannot fix.
pub proof fn law_network_failures_are_transient(stderr: Seq<char>, p: Seq<char>)
    requires
        is_transient_phrase(p),
        contains(lower_seq(stderr), p),
        forall|q: Seq<char>|
            is_auth_phrase(q) || is_not_found_phrase(q) ==> !contains(lower_seq(stderr), q),
        !reports_missing_ref(lower_seq(stderr)),
    ensures
        classification(stderr) == FailureKind::Transient,
{
    let h = lower_seq(stderr);
    lemma_auth_index("access denied"@);
    lemma_not_found_index("404 not found"@);
    lemma_missing_ref_index("remote branch"@);
    lemma_transient_index(p);
    assert forall|i: int| 0 <= i < 20 implies !pattern_applies(h, i) by {
        if i < 12 {
            assert(is_auth_phrase(pattern(i).0));
        } else if i < 17 {
            assert(is_not_found_phrase(pattern(i).0));
        } else {
            assert(is_missing_ref_phrase(pattern(i).0));
            if pattern_applies(h, i) {
                if i != 17 {
                    reveal_strlit("remote branch");
                    reveal_strlit("could not find remote ref");
                    reveal_strlit("couldn't find remote ref");
                    assert(pattern(i).0.len() != "remote branch"@.len());
                }
                assert(is_missing_ref_phrase(pattern(i).0) && contains(h, pattern(i).0) && (
                pattern(i).0 == "remote branch"@ ==> contains(h, "not found"@)));
            }
        }
    }
    lemma_none_apply(h, 0, 20);
    let k = lemma_first_hit(h, 20, transient_index(p));
    assert(pattern(k).1 == FailureKind::Transient);
}

/// Law: a message saying the local destination is unusable, and nothing about the remote,
/// is classified as a workspace problem.
pub proof fn law_local_problems_are_workspace(stderr: Seq<char>, p: Seq<char>)
    requires
        is_workspace_phrase(p),
        contains(lower_seq(stderr), p),
        forall|q: Seq<char>|
            is_auth_phrase(q) || is_not_found_phrase(q) || is_transient_phrase(q) ==> !contains(
                lower_seq(stderr),
                q,
            ),
        !reports_missing_ref(lower_seq(stderr)),
    ensures
        classification(stderr) == FailureKind::Workspace,
{
    let h = lower_seq(stderr);
    lemma_auth_index("access denied"@);
    lemma_not_found_index("404 not found"@);
    lemma_missing_ref_index("remote branch"@);
    lemma_transient_index("timed out"@);
    lemma_workspace_index(p);
    assert forall|i: int| 0 <= i < 41 implies !pattern_applies(h, i) by {
        if i < 12 {
            assert(is_auth_phrase(pattern(i).0));
        } else if i < 17 {
            assert(is_not_found_phrase(pattern(i).0));
        } else if i < 20 {
            assert(is_missing_ref_phrase(pattern(i).0));
            if pattern_applies(h, i) {
                if i != 17 {
                    reveal_strlit("remote branch");
                    reveal_strlit("could not find remote ref");
                    reveal_strlit("couldn't find remote ref");
                    assert(pattern(i).0.len() != "remote branch"@.len());
                }
                assert(is_missing_ref_phrase(pattern(i).0) && contains(h, pattern(i).0) && (
                pattern(i).0 == "remote branch"@ ==> contains(h, "not found"@)));
            }
        } else {
            assert(is_transient_phrase(pattern(i).0));
        }
    }
    lemma_none_apply(h, 0, 41);
    let k = lemma_first_hit(h, 41, workspace_index(p));
    assert(pattern(k).1 == FailureKind::Workspace);
}

/// Law: a message that says none of these things is unknown -- never guessed at.
pub proof fn law_unrecognised_messages_are_unknown(stderr: Seq<char>)
    requires
        forall|q: Seq<char>|
            is_auth_phrase(q) || is_not_found_phrase(q) || is_transient_phrase(q)
                || is_workspace_phrase(q) ==> !contains(lower_seq(stderr), q),
        !reports_missing_ref(lower_seq(stderr)),
    ensures
        classification(stderr) == FailureKind::Unknown,
{
    let h = lower_seq(stderr);
    lemma_auth_index("access denied"@);
    lemma_not_found_index("404 not found"@);
    lemma_missing_ref_index("remote branch"@);
    lemma_transient_index("timed out"@);
    lemma_workspace_index("no space left on device"@);
    assert forall|i: int| 0 <= i < 45 implies !pattern_applies(h, i) by {
        if i < 12 {
            assert(is_auth_phrase(pattern(i).0));
        } else if i < 17 {
            assert(is_not_found_phrase(pattern(i).0));
        } else if i < 20 {
            assert(is_missing_ref_phrase(pattern(i).0));
            if pattern_applies(h, i) {
                if i != 17 {
                    reveal_strlit("remote branch");
                    reveal_strlit("could not find remote ref");
                    reveal_strlit("couldn't find remote ref");
                    assert(pattern(i).0.len() != "remote branch"@.len());
                }
                assert(is_missing_ref_phrase(pattern(i).0) && contains(h, pattern(i).0) && (
                pattern(i).0 == "remote branch"@ ==> contains(h, "not found"@)));
            }
        } else if i < 41 {
            assert(is_transient_phrase(pattern(i).0));
        } else {
            assert(is_workspace_phrase(pattern(i).0));
        }
    }
    lemma_none_apply(h, 0, 45);
}

/// Law: classification ignores the case of ASCII letters -- two texts that differ only in
/// it classify alike, and neither lowercasing nor uppercasing a text changes its kind.
pub proof fn law_classification_ignores_case(a: Seq<char>, b: Seq<char>)
    ensures
        lower_seq(a) == lower_seq(b) ==> classification(a) == classification(b),
        classification(lower_seq(a)) == classification(a),
        classification(upper_seq(a)) == classification(a),
{
    lemma_lower_seq_idempotent(a);
    lemma_lower_of_upper(a);
}

/// Classify a git failure from its stderr.
///
/// Matching is case-insensitive because git's wording varies across versions, platforms and
/// the `ssh` implementation in use.
pub fn classify(stderr: &str) -> (k: FailureKind)
    ensures
        k == classification(stderr@),
{
    let haystack = lowercase(&chars_of(stderr));
    let not_found = chars_of("not found");
    let mut i: usize = 0;
    while i < 45
        invariant
            0 <= i <= 45,
            haystack@ == lower_seq(stderr@),
            not_found@ == "not found"@,
            classify_from(haystack@, 0) == classify_from(haystack@, i as int),
        decreases 45 - i,
    {
        let (p, kind) = pattern_at(i);
        if contains_exec(&haystack, &chars_of(p)) {
            if !(i == 17 && !contains_exec(&haystack, &not_found)) {
                return kind;
            }
        }
        i = i + 1;
    }
    FailureKind::Unknown
}

// ---------------------------------------------------------------------------------------
// Which lines of stderr to show
// ---------------------------------------------------------------------------------------

/// At most this many lines of git's stderr are shown.
pub open spec fn max_lines() -> int {
    6
}

/// A line worth showing: it starts, case-insensitively, with one of the prefixes git and ssh
/// use for diagnostics.
pub open spec fn is_diagnostic(line: Seq<char>) -> bool {
    let l = lower_seq(line);
    ||| starts_with(l, "fatal:"@)
    ||| starts_with(l, "error:"@)
    ||| starts_with(l, "warning:"@)
    ||| starts_with(l, "remote:"@)
    ||| starts_with(l, "ssh:"@)
    ||| starts_with(l, "git:"@)
    ||| starts_with(l, "permission denied"@)
    ||| starts_with(l, "could not"@)
    ||| starts_with(l, "unable to"@)
    ||| starts_with(l, "access denied"@)
    ||| starts_with(l, "host key"@)
}

/// The trimmed, non-empty lines among `pieces`, in order.
pub open spec fn trimmed_lines(pieces: Seq<Seq<char>>) -> Seq<Seq<char>>
    decreases pieces.len(),
{
    if pieces.len() == 0 {
        Seq::<Seq<char>>::empty()
    } else {
        let before = trimmed_lines(pieces.drop_last());
        let t = trim(pieces.last());
        if t.len() > 0 {
            before.push(t)
        } else {
            before
        }
    }
}

/// The diagnostic lines among `lines`, in order.
pub open spec fn diagnostics(lines: Seq<Seq<char>>) -> Seq<Seq<char>>
    decreases lines.len(),
{
    if lines.len() == 0 {
        Seq::<Seq<char>>::empty()
    } else {
        let before = diagnostics(lines.drop_last());
        if is_diagnostic(lines.last()) {
            before.push(lines.last())
        } else {
            before
        }
    }
}

/// The lines of git's stderr worth putting in front of a developer: the first six
/// diagnostic lines, or, when there are none, the last six non-empty lines -- an
/// unrecognised failure is exactly when the raw text matters. Lines are split on both
/// `'\n'` and `'\r'`, because `--progress` separates its updates with carriage returns.
pub open spec fn relevant(stderr: Seq<char>) -> Seq<char> {
    let all = trimmed_lines(split(stderr, Sep::LineBreak));
    let wanted = diagnostics(all);
    let shown = if wanted.len() == 0 {
        if all.len() > max_lines() {
            all.skip(all.len() - max_lines())
        } else {
            all
        }
    } else if wanted.len() > max_lines() {
        wanted.take(max_lines())
    } else {
        wanted
    };
    join(shown, "\n"@)
}

fn diagnostic_line(line: &Vec<char>) -> (b: bool)
    ensures
        b == is_diagnostic(line@),
{
    let l = lowercase(line);
    starts_with_exec(&l, &chars_of("fatal:")) || starts_with_exec(&l, &chars_of("error:"))
        || starts_with_exec(&l, &chars_of("warning:")) || starts_with_exec(
        &l,
        &chars_of("remote:"),
    ) || starts_with_exec(&l, &chars_of("ssh:")) || starts_with_exec(&l, &chars_of("git:"))
        || starts_with_exec(&l, &chars_of("permission denied")) || starts_with_exec(
        &l,
        &chars_of("could not"),
    ) || starts_with_exec(&l, &chars_of("unable to")) || starts_with_exec(
        &l,
        &chars_of("access denied"),
    ) || starts_with_exec(&l, &chars_of("host key"))
}

/// Join `lines[from..to]` with `'\n'`.
fn join_lines(lines: &Vec<Vec<char>>, from: usize, to: usize) -> (s: String)
    requires
        from <= to <= lines@.len(),
    ensures
        s@ == join(views(lines@).subrange(from as int, to as int), "\n"@),
{
    let mut s = String::new();
    let mut i = from;
    while i < to
        invariant
            from <= i <= to <= lines@.len(),
            s@ == join(views(lines@).subrange(from as int, i as int), "\n"@),
        decreases to - i,
    {
        let ghost prefix = views(lines@).subrange(from as int, i + 1);
        assert(prefix.drop_last() == views(lines@).subrange(from as int, i as int));
        assert(prefix.last() == lines@[i as int]@);
        if i > from {
            crate::text::push_char(&mut s, '\n');
            proof {
                reveal_strlit("\n");
            }
            assert(seq!['\n'] == "\n"@);
        } else {
            assert(prefix.len() == 1);
        }
        let line = &lines[i];
        push_chars(&mut s, line, 0, line.len());
        assert(line@.subrange(0, line@.len() as int) == line@);
        i = i + 1;
    }
    s
}

/// The lines of git's stderr worth putting in front of a developer.
///
/// git is chatty, and `--progress` fills stderr with carriage-return progress updates.
/// Showing all of it for every failed repository would bury the one line that matters.
pub fn relevant_stderr(stderr: &str) -> (r: String)
    ensures
        r@ == relevant(stderr@),
{
    let pieces = split_exec(&chars_of(stderr), Sep::LineBreak);
    let mut all: Vec<Vec<char>> = Vec::new();
    for i in 0..pieces.len()
        invariant
            views(all@) == trimmed_lines(views(pieces@).take(i as int)),
    {
        let piece = &pieces[i];
        let (a, b) = trim_bounds(piece, 0, piece.len());
        assert(piece@.subrange(0, piece@.len() as int) == piece@);
        assert(views(pieces@).take(i + 1).drop_last() == views(pieces@).take(i as int));
        assert(views(pieces@).take(i + 1).last() == piece@);
        if a < b {
            all.push(crate::text::sub_vec(piece, a, b));
            assert(views(all@) =~= views(all@.drop_last()).push(all@.last()@));
        }
    }
    assert(views(pieces@).take(pieces@.len() as int) == views(pieces@));
    let mut wanted: Vec<Vec<char>> = Vec::new();
    for i in 0..all.len()
        invariant
            views(wanted@) == diagnostics(views(all@).take(i as int)),
    {
        assert(views(all@).take(i + 1).drop_last() == views(all@).take(i as int));
        assert(views(all@).take(i + 1).last() == all@[i as int]@);
        if diagnostic_line(&all[i]) {
            wanted.push(crate::text::sub_vec(&all[i], 0, all[i].len()));
            assert(all@[i as int]@.subrange(0, all@[i as int]@.len() as int) == all@[i as int]@);
            assert(views(wanted@) =~= views(wanted@.drop_last()).push(wanted@.last()@));
        }
    }
    assert(views(all@).take(all@.len() as int) == views(all@));
    if wanted.len() == 0 {
        let from = if all.len() > 6 {
            all.len() - 6
        } else {
            0
        };
        let r = join_lines(&all, from, all.len());
        assert(views(all@).subrange(from as int, all@.len() as int) =~= if all@.len() > 6 {
            views(all@).skip(views(all@).len() - 6)
        } else {
            views(all@)
        });
        r
    } else {
        let to = if wanted.len() > 6 {
            6
        } else {
            wanted.len()
        };
        let r = join_lines(&wanted, 0, to);
        assert(views(wanted@).subrange(0, to as int) =~= if wanted@.len() > 6 {
            views(wanted@).take(6)
        } else {
            views(wanted@)
        });
        r
    }
}

} // verus!
