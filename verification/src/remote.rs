//! Repository URLs: derivation, transport validation and identity comparison.
//!
//! Every URL here eventually becomes an argument to an external `git` process, so this
//! module is a security boundary rather than a formatting helper. See [`validate`].
use vstd::prelude::*;

use crate::text::{
    char_pos, char_pos_exec, chars_of, ends_with, ends_with_exec, eq_chars, find, find_exec,
    has_char, has_char_exec, is_alpha, is_ascii_alnum, is_ascii_alpha, is_digit, is_whitespace,
    is_ws, lemma_char_pos, lemma_char_pos_is, lemma_contains, lemma_find_absent, lemma_find_is,
    lemma_last_char_pos, lemma_last_char_pos_is, occurs_at, lower_seq, lowercase, push_str, rsplit_once,
    rsplit_once_exec, split_once, split_once_exec, starts_with, starts_with_exec, string_of,
    strip_bounds, strip_leading, strip_trailing, sub_vec, trim, trim_bounds, trim_end, trim_start,
    lemma_trim_start_push, lemma_trim_start_suffix, lemma_strip_leading_push,
};

verus! {

broadcast use vstd::string::group_string_axioms;

/// Git transport used when a repository does not override its URL.
#[derive(Debug, Clone, Copy, PartialEq, Eq, Structural)]
pub enum Protocol {
    Ssh,
    Https,
}

impl Protocol {
    /// The transport's name as the user types it: `ssh` or `https`.
    pub open spec fn spec_name(self) -> Seq<char> {
        match self {
            Protocol::Ssh => "ssh"@,
            Protocol::Https => "https"@,
        }
    }

    pub fn name(&self) -> (s: &'static str)
        ensures
            s@ == self.spec_name(),
    {
        match self {
            Protocol::Ssh => "ssh",
            Protocol::Https => "https",
        }
    }
}

/// Why a repository URL was refused, as a value of the specification.
pub enum UrlProblem {
    Empty,
    LeadsWithDash,
    Whitespace,
    RemoteHelper(Seq<char>),
    UnsupportedScheme(Seq<char>),
    Unrecognised,
}

/// Why a repository URL was refused.
#[derive(Debug, Clone, PartialEq, Eq)]
pub enum UrlError {
    /// The URL is empty.
    Empty,
    /// The URL starts with `-`, which `git` would read as an option.
    LeadsWithDash,
    /// The URL contains whitespace.
    Whitespace,
    /// `helper::` is a git remote-helper transport, which can execute arbitrary commands.
    RemoteHelper { helper: String },
    /// A transport outside the allowlist.
    UnsupportedScheme { scheme: String },
    /// Not a recognised git URL, scp-style address or absolute path.
    Unrecognised,
}

impl View for UrlError {
    type V = UrlProblem;

    open spec fn view(&self) -> UrlProblem {
        match self {
            UrlError::Empty => UrlProblem::Empty,
            UrlError::LeadsWithDash => UrlProblem::LeadsWithDash,
            UrlError::Whitespace => UrlProblem::Whitespace,
            UrlError::RemoteHelper { helper } => UrlProblem::RemoteHelper(helper@),
            UrlError::UnsupportedScheme { scheme } => UrlProblem::UnsupportedScheme(scheme@),
            UrlError::Unrecognised => UrlProblem::Unrecognised,
        }
    }
}

/// The allowlist, in the order it is shown to the user.
pub open spec fn allowed_list() -> Seq<char> {
    "https, http, ssh, git, file"@
}

/// The message shown for a refused URL.
pub open spec fn problem_message(p: UrlProblem) -> Seq<char> {
    match p {
        UrlProblem::Empty => "the URL is empty"@,
        UrlProblem::LeadsWithDash => "the URL starts with '-', which `git` would read as an option"@,
        UrlProblem::Whitespace => "the URL contains whitespace"@,
        UrlProblem::RemoteHelper(h) => "`"@ + h
            + "::` is a git remote-helper transport, which can execute arbitrary commands"@,
        UrlProblem::UnsupportedScheme(s) => "unsupported transport `"@ + s + "` (allowed: "@
            + allowed_list() + ")"@,
        UrlProblem::Unrecognised =>
            "the URL is not a recognised git URL, scp-style address or absolute path"@,
    }
}

impl UrlError {
    /// The sentence that explains the refusal.
    pub fn message(&self) -> (m: String)
        ensures
            m@ == problem_message(self@),
    {
        match self {
            UrlError::Empty => String::from_str("the URL is empty"),
            UrlError::LeadsWithDash => String::from_str(
                "the URL starts with '-', which `git` would read as an option",
            ),
            UrlError::Whitespace => String::from_str("the URL contains whitespace"),
            UrlError::RemoteHelper { helper } => {
                let mut m = String::from_str("`");
                push_str(&mut m, helper.as_str());
                push_str(
                    &mut m,
                    "::` is a git remote-helper transport, which can execute arbitrary commands",
                );
                m
            },
            UrlError::UnsupportedScheme { scheme } => {
                let mut m = String::from_str("unsupported transport `");
                push_str(&mut m, scheme.as_str());
                push_str(&mut m, "` (allowed: ");
                push_str(&mut m, "https, http, ssh, git, file");
                push_str(&mut m, ")");
                m
            },
            UrlError::Unrecognised => String::from_str(
                "the URL is not a recognised git URL, scp-style address or absolute path",
            ),
        }
    }
}

// ---------------------------------------------------------------------------------------
// Validation
// ---------------------------------------------------------------------------------------

/// The transports `qeet` is willing to hand to `git`. `ext::` and other remote helpers are
/// deliberately absent: they turn a manifest into remote code execution.
pub open spec fn allowed_scheme(s: Seq<char>) -> bool {
    s == "https"@ || s == "http"@ || s == "ssh"@ || s == "git"@ || s == "file"@
}

/// A URL scheme: a letter, then letters, digits, `+`, `-` or `.`.
pub open spec fn well_formed_scheme(s: Seq<char>) -> bool {
    &&& s.len() > 0
    &&& is_ascii_alpha(s[0])
    &&& forall|i: int|
        0 <= i < s.len() ==> #[trigger] is_ascii_alnum(s[i]) || s[i] == '+' || s[i] == '-' || s[i]
            == '.'
}

/// `[user@]host:path`: a colon before any slash, with a non-empty host and path, and not a
/// bare Windows drive letter.
pub open spec fn is_scp_style(s: Seq<char>) -> bool {
    match split_once(s, ':') {
        None => false,
        Some((authority, path)) => {
            &&& authority.len() > 0
            &&& path.len() > 0
            &&& !has_char(authority, '/')
            &&& !(authority.len() == 1 && is_ascii_alpha(authority[0]))
        },
    }
}

/// A local path, which git clones as if it were `file://`.
pub open spec fn is_local_path(s: Seq<char>) -> bool {
    ||| starts_with(s, "/"@)
    ||| starts_with(s, "./"@)
    ||| starts_with(s, "../"@)
    ||| starts_with(s, "\\"@)
    ||| (s.len() >= 3 && is_ascii_alpha(s[0]) && s[1] == ':' && (s[2] == '/' || s[2] == '\\'))
}

/// Everything before the first `/`: where a remote-helper prefix would appear.
pub open spec fn authority_region(s: Seq<char>) -> Seq<char> {
    match char_pos(s, '/') {
        Some(k) => s.take(k),
        None => s,
    }
}

/// A remote-helper prefix such as `ext::`, if the URL has one. A `::` after a `[` belongs to
/// a bracketed IPv6 host instead.
pub open spec fn remote_helper(s: Seq<char>) -> Option<Seq<char>> {
    let a = authority_region(s);
    match find(a, "::"@) {
        Some(i) => if !has_char(a.take(i), '[') {
            Some(a.take(i))
        } else {
            None
        },
        None => None,
    }
}

/// What is wrong with a URL, in the order the checks are made; `None` when it is usable.
pub open spec fn url_problem(s: Seq<char>) -> Option<UrlProblem> {
    if s.len() == 0 {
        Some(UrlProblem::Empty)
    } else if s[0] == '-' {
        Some(UrlProblem::LeadsWithDash)
    } else if exists|i: int| 0 <= i < s.len() && is_ws(#[trigger] s[i]) {
        Some(UrlProblem::Whitespace)
    } else if remote_helper(s) is Some {
        Some(UrlProblem::RemoteHelper(remote_helper(s)->0))
    } else {
        match find(s, "://"@) {
            Some(i) => {
                let scheme = s.take(i);
                if !well_formed_scheme(scheme) {
                    Some(UrlProblem::Unrecognised)
                } else if !allowed_scheme(lower_seq(scheme)) {
                    Some(UrlProblem::UnsupportedScheme(lower_seq(scheme)))
                } else if s.len() == i + 3 {
                    Some(UrlProblem::Unrecognised)
                } else {
                    None
                }
            },
            None => if is_scp_style(s) || is_local_path(s) {
                None
            } else {
                Some(UrlProblem::Unrecognised)
            },
        }
    }
}

fn literal(s: &str) -> (v: Vec<char>)
    ensures
        v@ == s@,
{
    chars_of(s)
}

fn has_whitespace(v: &Vec<char>) -> (b: bool)
    ensures
        b == exists|i: int| 0 <= i < v@.len() && is_ws(#[trigger] v@[i]),
{
    for i in 0..v.len()
        invariant
            forall|k: int| 0 <= k < i ==> !is_ws(#[trigger] v@[k]),
    {
        if is_whitespace(v[i]) {
            return true;
        }
    }
    false
}

fn scheme_is_well_formed(v: &Vec<char>) -> (b: bool)
    ensures
        b == well_formed_scheme(v@),
{
    if v.len() == 0 || !is_alpha(v[0]) {
        return false;
    }
    for i in 0..v.len()
        invariant
            forall|k: int|
                0 <= k < i ==> #[trigger] is_ascii_alnum(v@[k]) || v@[k] == '+' || v@[k] == '-'
                    || v@[k] == '.',
    {
        let c = v[i];
        if !(is_alpha(c) || is_digit(c) || c == '+' || c == '-' || c == '.') {
            assert(!is_ascii_alnum(v@[i as int]));
            return false;
        }
    }
    true
}

fn scheme_is_allowed(v: &Vec<char>) -> (b: bool)
    ensures
        b == allowed_scheme(v@),
{
    eq_chars(v, &literal("https")) || eq_chars(v, &literal("http")) || eq_chars(
        v,
        &literal("ssh"),
    ) || eq_chars(v, &literal("git")) || eq_chars(v, &literal("file"))
}

fn scp_style(v: &Vec<char>) -> (b: bool)
    ensures
        b == is_scp_style(v@),
{
    match split_once_exec(v, ':') {
        None => false,
        Some((authority, path)) => {
            authority.len() > 0 && path.len() > 0 && !has_char_exec(&authority, '/') && !(
            authority.len() == 1 && is_alpha(authority[0]))
        },
    }
}

fn local_path(v: &Vec<char>) -> (b: bool)
    ensures
        b == is_local_path(v@),
{
    starts_with_exec(v, &literal("/")) || starts_with_exec(v, &literal("./")) || starts_with_exec(
        v,
        &literal("../"),
    ) || starts_with_exec(v, &literal("\\")) || (v.len() >= 3 && is_alpha(v[0]) && v[1] == ':'
        && (v[2] == '/' || v[2] == '\\'))
}

fn helper_prefix(v: &Vec<char>) -> (r: Option<Vec<char>>)
    ensures
        r matches Some(h) ==> remote_helper(v@) == Some(h@),
        r is None ==> remote_helper(v@) is None,
{
    let end = match char_pos_exec(v, '/') {
        Some(k) => k,
        None => v.len(),
    };
    proof {
        lemma_char_pos(v@, '/');
    }
    let authority = sub_vec(v, 0, end);
    assert(authority@ == authority_region(v@)) by {
        if char_pos(v@, '/') is None {
            assert(v@.subrange(0, v@.len() as int) == v@);
        }
    }
    match find_exec(&authority, &literal("::")) {
        Some(i) => {
            proof {
                lemma_contains(authority@, "::"@);
            }
            let prefix = sub_vec(&authority, 0, i);
            if !has_char_exec(&prefix, '[') {
                Some(prefix)
            } else {
                None
            }
        },
        None => None,
    }
}

/// Check a URL before it is ever passed to `git`.
///
/// Rejects, in order: empty input, a leading `-` (which `git` would parse as an option such
/// as `--upload-pack=`), whitespace, remote-helper transports like `ext::`, unknown schemes,
/// and anything that is not a recognisable git address.
pub fn validate(raw: &str) -> (r: Result<(), UrlError>)
    ensures
        r is Ok <==> url_problem(raw@) is None,
        r matches Err(e) ==> url_problem(raw@) == Some(e@),
{
    let v = chars_of(raw);
    if v.len() == 0 {
        return Err(UrlError::Empty);
    }
    if v[0] == '-' {
        return Err(UrlError::LeadsWithDash);
    }
    if has_whitespace(&v) {
        return Err(UrlError::Whitespace);
    }
    if let Some(helper) = helper_prefix(&v) {
        return Err(UrlError::RemoteHelper { helper: string_of(&helper) });
    }
    let n = v.len();
    match find_exec(&v, &literal("://")) {
        Some(i) => {
            proof {
                lemma_contains(v@, "://"@);
                reveal_strlit("://");
            }
            assert(i + 3 <= n);
            let scheme = sub_vec(&v, 0, i);
            assert(scheme@ == v@.take(i as int));
            if !scheme_is_well_formed(&scheme) {
                return Err(UrlError::Unrecognised);
            }
            let lowered = lowercase(&scheme);
            if !scheme_is_allowed(&lowered) {
                return Err(UrlError::UnsupportedScheme { scheme: string_of(&lowered) });
            }
            if v.len() == i + 3 {
                return Err(UrlError::Unrecognised);
            }
            Ok(())
        },
        None => {
            if scp_style(&v) || local_path(&v) {
                Ok(())
            } else {
                Err(UrlError::Unrecognised)
            }
        },
    }
}

// ---------------------------------------------------------------------------------------
// Derivation
// ---------------------------------------------------------------------------------------

/// The remote a manifest derives clone URLs from.
#[derive(Debug, Clone, PartialEq, Eq)]
pub struct Remote {
    pub host: String,
    pub owner: String,
    pub protocol: Protocol,
}

/// The clone URL derived for a repository name under a transport.
pub open spec fn derived_url(host: Seq<char>, owner: Seq<char>, name: Seq<char>, protocol: Protocol) -> Seq<
    char,
> {
    match protocol {
        Protocol::Ssh => "git@"@ + host + ":"@ + owner + "/"@ + name + ".git"@,
        Protocol::Https => "https://"@ + host + "/"@ + owner + "/"@ + name + ".git"@,
    }
}

impl Remote {
    /// Derive the clone URL for a repository name under the given transport.
    ///
    /// `protocol` is passed in rather than read from `self` so a per-run `--protocol`
    /// override needs no mutation of the parsed manifest.
    pub fn url_for(&self, name: &str, protocol: Protocol) -> (url: String)
        ensures
            url@ == derived_url(self.host@, self.owner@, name@, protocol),
    {
        let mut url = match protocol {
            Protocol::Ssh => String::from_str("git@"),
            Protocol::Https => String::from_str("https://"),
        };
        push_str(&mut url, self.host.as_str());
        match protocol {
            Protocol::Ssh => push_str(&mut url, ":"),
            Protocol::Https => push_str(&mut url, "/"),
        }
        push_str(&mut url, self.owner.as_str());
        push_str(&mut url, "/");
        push_str(&mut url, name);
        push_str(&mut url, ".git");
        url
    }

    /// The transport a run should use: the `--protocol` override, else the manifest default.
    pub fn effective_protocol(&self, requested: Option<Protocol>) -> (p: Protocol)
        ensures
            p == match requested {
                Some(r) => r,
                None => self.protocol,
            },
    {
        match requested {
            Some(r) => r,
            None => self.protocol,
        }
    }
}

// ---------------------------------------------------------------------------------------
// Identity
// ---------------------------------------------------------------------------------------

/// Result of comparing two URLs. Anything other than [`Same`](UrlMatch::Same) is treated as
/// a reason not to touch an existing directory.
#[derive(Debug, Clone, Copy, PartialEq, Eq, Structural)]
pub enum UrlMatch {
    /// Both URLs confidently name the same repository.
    Same,
    /// Both URLs were understood and name different repositories.
    Different,
    /// At least one URL could not be reduced to an identity, so no claim is made.
    Indeterminate,
}

/// `git@github.com:2222` -> `github.com`. Bracketed IPv6 hosts keep their brackets.
pub open spec fn strip_userinfo_and_port(a: Seq<char>) -> Seq<char> {
    let host = match rsplit_once(a, '@') {
        Some((_, h)) => h,
        None => a,
    };
    if starts_with(host, "["@) {
        match split_once(host, ']') {
            Some((h, _)) => host.take(h.len() + 1int),
            None => host,
        }
    } else {
        match split_once(host, ':') {
            Some((h, _)) => h,
            None => host,
        }
    }
}

/// A URL's host and path before normalisation, when it has a recognisable shape.
pub open spec fn raw_identity(t: Seq<char>) -> Option<(Seq<char>, Seq<char>)> {
    match find(t, "://"@) {
        Some(i) => {
            let rest = t.skip(i + 3);
            if lower_seq(t.take(i)) == "file"@ {
                Some((Seq::<char>::empty(), strip_leading(rest, '/')))
            } else {
                match split_once(rest, '/') {
                    Some((authority, path)) => Some((strip_userinfo_and_port(authority), path)),
                    None => None,
                }
            }
        },
        None => if is_scp_style(t) {
            match split_once(t, ':') {
                Some((authority, path)) => Some((strip_userinfo_and_port(authority), path)),
                None => None,
            }
        } else if is_local_path(t) {
            Some((Seq::<char>::empty(), t))
        } else {
            None
        },
    }
}

/// `path` without surrounding `/`s and without one trailing `.git`.
pub open spec fn normalise_repo_path(path: Seq<char>) -> Seq<char> {
    let p = strip_trailing(strip_leading(path, '/'), '/');
    if ends_with(p, ".git"@) {
        p.take(p.len() - 4)
    } else {
        p
    }
}

/// The repository a URL points at: a lowercased host (empty for local paths) and a path, or
/// `None` when the URL cannot be reduced with confidence.
pub open spec fn identity(raw: Seq<char>) -> Option<(Seq<char>, Seq<char>)> {
    let t = trim(raw);
    if t.len() == 0 {
        None
    } else {
        match raw_identity(t) {
            Some((host, path)) => {
                let p = normalise_repo_path(path);
                if p.len() == 0 {
                    None
                } else {
                    Some((lower_seq(host), p))
                }
            },
            None => None,
        }
    }
}

/// How two URLs compare, by identity.
pub open spec fn url_match(left: Seq<char>, right: Seq<char>) -> UrlMatch {
    match (identity(left), identity(right)) {
        (Some(l), Some(r)) => if l == r {
            UrlMatch::Same
        } else {
            UrlMatch::Different
        },
        _ => UrlMatch::Indeterminate,
    }
}

fn strip_userinfo_and_port_exec(a: &Vec<char>) -> (h: Vec<char>)
    ensures
        h@ == strip_userinfo_and_port(a@),
{
    let host = match rsplit_once_exec(a, '@') {
        Some((_, h)) => h,
        None => sub_vec(a, 0, a.len()),
    };
    assert(a@.subrange(0, a@.len() as int) == a@);
    if starts_with_exec(&host, &literal("[")) {
        match split_once_exec(&host, ']') {
            Some((h, _)) => {
                proof {
                    lemma_char_pos(host@, ']');
                }
                sub_vec(&host, 0, h.len() + 1)
            },
            None => host,
        }
    } else {
        match split_once_exec(&host, ':') {
            Some((h, _)) => h,
            None => host,
        }
    }
}

fn raw_identity_exec(t: &Vec<char>) -> (r: Option<(Vec<char>, Vec<char>)>)
    ensures
        r matches Some(p) ==> raw_identity(t@) == Some((p.0@, p.1@)),
        r is None ==> raw_identity(t@) is None,
{
    let n = t.len();
    match find_exec(t, &literal("://")) {
        Some(i) => {
            proof {
                lemma_contains(t@, "://"@);
                reveal_strlit("://");
            }
            assert(i + 3 <= n);
            let scheme = lowercase(&sub_vec(t, 0, i));
            let rest = sub_vec(t, i + 3, t.len());
            assert(rest@ == t@.skip(i + 3));
            if eq_chars(&scheme, &literal("file")) {
                let (a, b) = strip_bounds(&rest, 0, rest.len(), '/', true, false);
                assert(rest@.subrange(0, rest@.len() as int) == rest@);
                Some((Vec::new(), sub_vec(&rest, a, b)))
            } else {
                match split_once_exec(&rest, '/') {
                    Some((authority, path)) => Some(
                        (strip_userinfo_and_port_exec(&authority), path),
                    ),
                    None => None,
                }
            }
        },
        None => {
            if scp_style(t) {
                match split_once_exec(t, ':') {
                    Some((authority, path)) => Some(
                        (strip_userinfo_and_port_exec(&authority), path),
                    ),
                    None => None,
                }
            } else if local_path(t) {
                Some((Vec::new(), sub_vec(t, 0, t.len())))
            } else {
                None
            }
        },
    }
}

fn identity_exec(raw: &str) -> (r: Option<(Vec<char>, Vec<char>)>)
    ensures
        r matches Some(p) ==> identity(raw@) == Some((p.0@, p.1@)),
        r is None ==> identity(raw@) is None,
{
    let v = chars_of(raw);
    let (a, b) = trim_bounds(&v, 0, v.len());
    assert(v@.subrange(0, v@.len() as int) == v@);
    if a == b {
        return None;
    }
    let t = sub_vec(&v, a, b);
    match raw_identity_exec(&t) {
        Some((host, path)) => {
            let (pa, pb) = strip_bounds(&path, 0, path.len(), '/', true, true);
            assert(path@.subrange(0, path@.len() as int) == path@);
            let p = sub_vec(&path, pa, pb);
            proof {
                reveal_strlit(".git");
            }
            let p = if ends_with_exec(&p, &literal(".git")) {
                sub_vec(&p, 0, p.len() - 4)
            } else {
                p
            };
            if p.len() == 0 {
                None
            } else {
                Some((lowercase(&host), p))
            }
        },
        None => None,
    }
}

/// Compare two repository URLs semantically.
///
/// `git@github.com:qeetgroup/x.git` and `https://github.com/qeetgroup/x.git` are the same
/// repository, so raw string equality is not good enough. Where a URL cannot be reduced
/// with confidence the answer is [`UrlMatch::Indeterminate`] -- never a guess, because
/// wrongly concluding "same" is what would put a developer's existing work at risk.
pub fn compare(left: &str, right: &str) -> (m: UrlMatch)
    ensures
        m == url_match(left@, right@),
{
    match (identity_exec(left), identity_exec(right)) {
        (Some(l), Some(r)) => {
            if eq_chars(&l.0, &r.0) && eq_chars(&l.1, &r.1) {
                UrlMatch::Same
            } else {
                UrlMatch::Different
            }
        },
        _ => UrlMatch::Indeterminate,
    }
}

// ---------------------------------------------------------------------------------------
// Laws of comparison
// ---------------------------------------------------------------------------------------

/// Comparison does not depend on which URL is on the left.
pub proof fn law_compare_symmetric(left: Seq<char>, right: Seq<char>)
    ensures
        url_match(left, right) == url_match(right, left),
{
}

/// A URL that can be understood names the same repository as itself, and one that cannot is
/// never judged different from anything.
pub proof fn law_compare_reflexive(url: Seq<char>)
    ensures
        identity(url) is Some ==> url_match(url, url) == UrlMatch::Same,
        identity(url) is None ==> url_match(url, url) == UrlMatch::Indeterminate,
{
}

/// "Same repository" is transitive: two URLs that each match a third match each other.
pub proof fn law_compare_same_transitive(a: Seq<char>, b: Seq<char>, c: Seq<char>)
    requires
        url_match(a, b) == UrlMatch::Same,
        url_match(b, c) == UrlMatch::Same,
    ensures
        url_match(a, c) == UrlMatch::Same,
{
}

/// Only a URL that cannot be understood makes a comparison indeterminate; two understood
/// URLs always get a definite answer.
pub proof fn law_compare_indeterminate_only_when_unparseable(left: Seq<char>, right: Seq<char>)
    ensures
        url_match(left, right) == UrlMatch::Indeterminate <==> (identity(left) is None
            || identity(right) is None),
{
}

/// What `url_for` can put between the separators of both transports: a host without `:`,
/// `/` or `@`, an owner that is non-empty, does not start with `/` and has no `:`, and a
/// repository name without `:`.
pub open spec fn derivable(host: Seq<char>, owner: Seq<char>, name: Seq<char>) -> bool {
    &&& forall|i: int| 0 <= i < host.len() ==> host[i] != ':' && host[i] != '/' && host[i] != '@'
    &&& owner.len() > 0
    &&& owner[0] != '/'
    &&& forall|i: int| 0 <= i < owner.len() ==> owner[i] != ':'
    &&& forall|i: int| 0 <= i < name.len() ==> name[i] != ':'
}

/// The path both derived URLs carry after their host.
spec fn derived_path(owner: Seq<char>, name: Seq<char>) -> Seq<char> {
    owner + "/"@ + name + ".git"@
}

proof fn lemma_derived_path_is_a_repository(owner: Seq<char>, name: Seq<char>)
    requires
        owner.len() > 0,
        owner[0] != '/',
    ensures
        normalise_repo_path(derived_path(owner, name)).len() > 0,
{
    reveal_strlit("/");
    reveal_strlit(".git");
    let path = derived_path(owner, name);
    assert(path[0] == owner[0]);
    assert(path.last() == 't');
    assert(strip_leading(path, '/') == path);
    assert(strip_trailing(path, '/') == path);
}

/// The SSH form `git@host:owner/name.git` is read as scp-style, with the host after `git@`.
proof fn lemma_ssh_identity(host: Seq<char>, owner: Seq<char>, name: Seq<char>)
    requires
        derivable(host, owner, name),
    ensures
        trim(derived_url(host, owner, name, Protocol::Ssh)) == derived_url(
            host,
            owner,
            name,
            Protocol::Ssh,
        ),
        raw_identity(derived_url(host, owner, name, Protocol::Ssh)) == Some(
            (strip_userinfo_and_port(host), derived_path(owner, name)),
        ),
        find(derived_url(host, owner, name, Protocol::Ssh), "://"@) is None,
        is_scp_style(derived_url(host, owner, name, Protocol::Ssh)),
{
    reveal_strlit("git@");
    reveal_strlit(":");
    reveal_strlit("/");
    reveal_strlit(".git");
    reveal_strlit("://");
    let s = derived_url(host, owner, name, Protocol::Ssh);
    let auth = "git@"@ + host;
    let tail = derived_path(owner, name);
    let a = auth.len() as int;
    assert(s =~= auth + ":"@ + tail);
    assert(s[0] == 'g');
    assert(s.last() == 't');
    assert(s[a] == ':');
    assert(s[a + 1] == owner[0]);
    assert forall|j: int| 0 <= j < a implies s[j] != ':' by {
        assert(s[j] == auth[j]);
    }
    assert forall|j: int| j > a && j < s.len() implies s[j] != ':' by {
        assert(s[j] == tail[j - a - 1]);
    }
    assert forall|j: int| !occurs_at(s, "://"@, j) by {
        if occurs_at(s, "://"@, j) {
            assert(s.subrange(j, j + 3)[0] == s[j]);
            assert(s.subrange(j, j + 3)[1] == s[j + 1]);
        }
    }
    lemma_find_absent(s, "://"@);
    lemma_char_pos_is(s, ':', a);
    assert(s.take(a) =~= auth);
    assert(s.skip(a + 1) =~= tail);
    assert forall|j: int| 0 <= j < auth.len() implies auth[j] != '/' by {}
    assert(!has_char(auth, '/'));
    assert(is_scp_style(s));
    lemma_last_char_pos_is(auth, '@', 3);
    assert(auth.skip(4) =~= host);
    lemma_last_char_pos(host, '@');
}

/// The HTTPS form `https://host/owner/name.git` is read by its scheme, with the host before
/// the first `/` of the rest.
proof fn lemma_https_identity(host: Seq<char>, owner: Seq<char>, name: Seq<char>)
    requires
        derivable(host, owner, name),
    ensures
        trim(derived_url(host, owner, name, Protocol::Https)) == derived_url(
            host,
            owner,
            name,
            Protocol::Https,
        ),
        raw_identity(derived_url(host, owner, name, Protocol::Https)) == Some(
            (strip_userinfo_and_port(host), derived_path(owner, name)),
        ),
        find(derived_url(host, owner, name, Protocol::Https), "://"@) == Some(5int),
{
    reveal_strlit("https://");
    reveal_strlit("/");
    reveal_strlit(".git");
    reveal_strlit("://");
    reveal_strlit("file");
    let s = derived_url(host, owner, name, Protocol::Https);
    let tail = derived_path(owner, name);
    let rest = host + "/"@ + tail;
    assert(s =~= "https://"@ + rest);
    assert(s[0] == 'h');
    assert(s.last() == 't');
    assert(s.subrange(5, 8) =~= "://"@);
    assert forall|j: int| 0 <= j < 5 implies !occurs_at(s, "://"@, j) by {
        assert(s.subrange(j, j + 3)[0] == s[j]);
    }
    lemma_find_is(s, "://"@, 5);
    assert(lower_seq(s.take(5)).len() == 5);
    assert(s.skip(8) =~= rest);
    assert(rest[host.len() as int] == '/');
    assert forall|j: int| 0 <= j < host.len() implies rest[j] != '/' by {
        assert(rest[j] == host[j]);
    }
    lemma_char_pos_is(rest, '/', host.len() as int);
    assert(rest.take(host.len() as int) =~= host);
    assert(rest.skip(host.len() + 1int) =~= tail);
}

/// The SSH and HTTPS URLs derived for one repository name the same repository: whichever
/// transport a checkout was cloned with, its origin is recognised as the repository the
/// manifest asks for.
pub proof fn law_derived_transports_name_one_repository(
    host: Seq<char>,
    owner: Seq<char>,
    name: Seq<char>,
)
    requires
        derivable(host, owner, name),
    ensures
        url_match(
            derived_url(host, owner, name, Protocol::Ssh),
            derived_url(host, owner, name, Protocol::Https),
        ) == UrlMatch::Same,
{
    lemma_ssh_identity(host, owner, name);
    lemma_https_identity(host, owner, name);
    lemma_derived_path_is_a_repository(owner, name);
    reveal_strlit("git@");
    reveal_strlit("https://");
    assert(derived_url(host, owner, name, Protocol::Ssh).len() > 0);
    assert(derived_url(host, owner, name, Protocol::Https).len() > 0);
}

/// No whitespace anywhere in `s`.
pub open spec fn unspaced(s: Seq<char>) -> bool {
    forall|i: int| 0 <= i < s.len() ==> !is_ws(#[trigger] s[i])
}

proof fn lemma_ssh_url_is_usable(host: Seq<char>, owner: Seq<char>, name: Seq<char>)
    requires
        derivable(host, owner, name),
        unspaced(host),
        unspaced(owner),
        unspaced(name),
    ensures
        url_problem(derived_url(host, owner, name, Protocol::Ssh)) is None,
{
    reveal_strlit("git@");
    reveal_strlit(":");
    reveal_strlit("/");
    reveal_strlit(".git");
    reveal_strlit("://");
    reveal_strlit("::");
    lemma_ssh_identity(host, owner, name);
    let s = derived_url(host, owner, name, Protocol::Ssh);
    let auth = "git@"@ + host;
    let tail = derived_path(owner, name);
    let a = auth.len() as int;
    assert(s =~= auth + ":"@ + tail);
    assert forall|i: int| 0 <= i < s.len() implies !is_ws(#[trigger] s[i]) by {
        if i < a {
            if i >= 4 {
                assert(s[i] == host[i - 4]);
            }
        } else if i > a {
            let t = i - a - 1;
            assert(s[i] == tail[t]);
            if t < owner.len() {
                assert(tail[t] == owner[t]);
            } else if t > owner.len() && t < owner.len() + 1 + name.len() {
                assert(tail[t] == name[t - owner.len() - 1]);
            }
        }
    }
    assert forall|j: int| 0 <= j < s.len() && j != a implies s[j] != ':' by {
        if j < a {
            assert(s[j] == auth[j]);
        } else {
            assert(s[j] == tail[j - a - 1]);
        }
    }
    assert(s[a + 1] == owner[0]);
    let region = authority_region(s);
    lemma_char_pos(s, '/');
    assert(region.len() <= s.len());
    assert forall|j: int| !occurs_at(region, "::"@, j) by {
        if occurs_at(region, "::"@, j) {
            assert(region.subrange(j, j + 2)[0] == region[j]);
            assert(region.subrange(j, j + 2)[1] == region[j + 1]);
            assert(region[j] == s[j]);
            assert(region[j + 1] == s[j + 1]);
        }
    }
    lemma_find_absent(region, "::"@);
}

proof fn lemma_https_url_is_usable(host: Seq<char>, owner: Seq<char>, name: Seq<char>)
    requires
        derivable(host, owner, name),
        unspaced(host),
        unspaced(owner),
        unspaced(name),
    ensures
        url_problem(derived_url(host, owner, name, Protocol::Https)) is None,
{
    reveal_strlit("https://");
    reveal_strlit("https");
    reveal_strlit("/");
    reveal_strlit(".git");
    reveal_strlit("://");
    reveal_strlit("::");
    lemma_https_identity(host, owner, name);
    let s = derived_url(host, owner, name, Protocol::Https);
    let tail = derived_path(owner, name);
    let rest = host + "/"@ + tail;
    assert(s =~= "https://"@ + rest);
    assert forall|i: int| 0 <= i < s.len() implies !is_ws(#[trigger] s[i]) by {
        if i >= 8 {
            let r = i - 8;
            assert(s[i] == rest[r]);
            if r < host.len() {
                assert(rest[r] == host[r]);
            } else if r > host.len() {
                let t = r - host.len() - 1;
                assert(rest[r] == tail[t]);
                if t < owner.len() {
                    assert(tail[t] == owner[t]);
                } else if t > owner.len() && t < owner.len() + 1 + name.len() {
                    assert(tail[t] == name[t - owner.len() - 1]);
                }
            }
        }
    }
    assert forall|j: int| 0 <= j < 6 implies s[j] != '/' by {}
    lemma_char_pos_is(s, '/', 6);
    let region = authority_region(s);
    assert(region =~= s.take(6));
    assert forall|j: int| !occurs_at(region, "::"@, j) by {
        if occurs_at(region, "::"@, j) {
            assert(region.subrange(j, j + 2)[0] == region[j]);
            assert(region.subrange(j, j + 2)[1] == region[j + 1]);
        }
    }
    lemma_find_absent(region, "::"@);
    assert(s.take(5) =~= "https"@);
    assert(well_formed_scheme(s.take(5)));
    assert(lower_seq(s.take(5)) =~= "https"@);
}

/// Every URL derived from a remote whose host, owner and repository name are free of
/// whitespace and of the separators the two transports use passes [`validate`].
pub proof fn law_derived_urls_are_valid(
    host: Seq<char>,
    owner: Seq<char>,
    name: Seq<char>,
    protocol: Protocol,
)
    requires
        derivable(host, owner, name),
        unspaced(host),
        unspaced(owner),
        unspaced(name),
    ensures
        url_problem(derived_url(host, owner, name, protocol)) is None,
{
    match protocol {
        Protocol::Ssh => lemma_ssh_url_is_usable(host, owner, name),
        Protocol::Https => lemma_https_url_is_usable(host, owner, name),
    }
}

// ---------------------------------------------------------------------------------------
// A trailing `/` does not change what a URL names
// ---------------------------------------------------------------------------------------

/// Does `t` end with `:/`, which one more `/` would turn into a `://`?
spec fn ends_with_colon_slash(t: Seq<char>) -> bool {
    t.len() >= 2 && t[t.len() - 2] == ':' && t.last() == '/'
}

proof fn lemma_find_scheme_push(t: Seq<char>)
    requires
        !ends_with_colon_slash(t),
    ensures
        find(t.push('/'), "://"@) == find(t, "://"@),
{
    reveal_strlit("://");
    let t2 = t.push('/');
    lemma_contains(t, "://"@);
    assert forall|j: int| j + 3 <= t.len() implies occurs_at(t2, "://"@, j) == occurs_at(
        t,
        "://"@,
        j,
    ) by {
        if 0 <= j {
            assert(t2.subrange(j, j + 3) =~= t.subrange(j, j + 3));
        }
    }
    assert(!occurs_at(t2, "://"@, t.len() - 2)) by {
        if occurs_at(t2, "://"@, t.len() - 2) {
            assert(t2.subrange(t.len() - 2, t.len() + 1int)[0] == t2[t.len() - 2]);
            assert(t2.subrange(t.len() - 2, t.len() + 1int)[1] == t2[t.len() - 1]);
        }
    }
    match find(t, "://"@) {
        Some(i) => {
            assert(occurs_at(t2, "://"@, i));
            assert forall|j: int| 0 <= j < i implies !occurs_at(t2, "://"@, j) by {
                assert(!occurs_at(t, "://"@, j));
            }
            lemma_find_is(t2, "://"@, i);
        },
        None => {
            assert forall|j: int| !occurs_at(t2, "://"@, j) by {
                if occurs_at(t2, "://"@, j) && j + 3 <= t.len() {
                    assert(occurs_at(t, "://"@, j));
                }
            }
            lemma_find_absent(t2, "://"@);
        },
    }
}

proof fn lemma_char_pos_push(t: Seq<char>, c: char, x: char)
    requires
        x != c || char_pos(t, c) is Some,
    ensures
        char_pos(t.push(x), c) == char_pos(t, c),
{
    let t2 = t.push(x);
    lemma_char_pos(t, c);
    lemma_char_pos(t2, c);
    match char_pos(t, c) {
        Some(k) => {
            assert(t2[k] == t[k]);
            assert forall|j: int| 0 <= j < k implies t2[j] != c by {
                assert(t2[j] == t[j]);
            }
            lemma_char_pos_is(t2, c, k);
        },
        None => {
            if let Some(k) = char_pos(t2, c) {
                if k < t.len() {
                    assert(t2[k] == t[k]);
                }
            }
        },
    }
}

proof fn lemma_raw_identity_push(t: Seq<char>)
    requires
        t.len() > 0,
        t.last() != ':',
        !ends_with_colon_slash(t),
        raw_identity(t) matches Some((h, p)) && strip_leading(p, '/').len() > 0,
    ensures
        raw_identity(t) matches Some((h, p)) && raw_identity(t.push('/')) == Some((h, p.push('/'))),
{
    reveal_strlit("://");
    let t2 = t.push('/');
    lemma_find_scheme_push(t);
    let (h, p) = raw_identity(t)->0;
    match find(t, "://"@) {
        Some(i) => {
            lemma_contains(t, "://"@);
            assert(i + 3 <= t.len());
            assert(t2.take(i) =~= t.take(i));
            let rest = t.skip(i + 3);
            assert(t2.skip(i + 3) =~= rest.push('/'));
            if lower_seq(t.take(i)) == "file"@ {
                assert(p == strip_leading(rest, '/'));
                assert(p.len() > 0) by {
                    if p.len() == 0 {
                        assert(strip_leading(p, '/') == p);
                    }
                }
                lemma_strip_leading_push(rest, '/', '/');
            } else {
                lemma_char_pos_push(rest, '/', '/');
                lemma_char_pos(rest, '/');
                let k = char_pos(rest, '/')->0;
                assert(rest.push('/').take(k) =~= rest.take(k));
                assert(rest.push('/').skip(k + 1) =~= rest.skip(k + 1).push('/'));
            }
        },
        None => {
            lemma_char_pos_push(t, ':', '/');
            lemma_char_pos(t, ':');
            if is_scp_style(t) {
                let k = char_pos(t, ':')->0;
                assert(t2.take(k) =~= t.take(k));
                assert(t2.skip(k + 1) =~= t.skip(k + 1).push('/'));
                assert(is_scp_style(t2));
            } else {
                assert(is_local_path(t));
                if let Some(k) = char_pos(t, ':') {
                    assert(k != t.len() - 1);
                    assert(t2.take(k) =~= t.take(k));
                    assert(t2.skip(k + 1).len() > 0);
                    assert(t.skip(k + 1).len() > 0);
                }
                assert(!is_scp_style(t2));
                assert forall|q: Seq<char>| q.len() <= t.len() implies t2.take(q.len() as int)
                    == t.take(q.len() as int) by {
                    assert(t2.take(q.len() as int) =~= t.take(q.len() as int));
                }
                reveal_strlit("/");
                reveal_strlit("./");
                reveal_strlit("../");
                reveal_strlit("\\");
                if t.len() >= 3 {
                    assert(t2[0] == t[0] && t2[1] == t[1] && t2[2] == t[2]);
                }
                assert(is_local_path(t2));
            }
        },
    }
}

proof fn lemma_normalise_push(p: Seq<char>)
    requires
        strip_leading(p, '/').len() > 0,
    ensures
        normalise_repo_path(p.push('/')) == normalise_repo_path(p),
{
    lemma_strip_leading_push(p, '/', '/');
    let q = strip_leading(p, '/');
    assert(q.push('/').drop_last() =~= q);
    assert(strip_trailing(q.push('/'), '/') == strip_trailing(q, '/'));
}

/// Law: a trailing `/` does not change what a URL names. For every URL that can be reduced
/// to a repository -- and that does not end in whitespace, `:` or `:/`, where one more `/`
/// would make a different kind of address -- the same URL with a `/` appended has the
/// same identity, and the two compare as the same repository.
pub proof fn law_trailing_slash_keeps_identity(u: Seq<char>)
    requires
        identity(u) is Some,
        u.len() > 0,
        !is_ws(u.last()),
        u.last() != ':',
        !(u.len() >= 2 && u[u.len() - 2] == ':' && u.last() == '/'),
    ensures
        identity(u.push('/')) == identity(u),
        url_match(u.push('/'), u) == UrlMatch::Same,
{
    let v = u.drop_last();
    let x = u.last();
    assert(u =~= v.push(x));
    lemma_trim_start_push(v, x);
    lemma_trim_start_push(u, '/');
    let t = trim_start(u);
    assert(t.last() == x);
    assert(trim_end(t) == t);
    assert(trim(u) == t);
    assert(!is_ws('/'));
    assert(t.push('/').last() == '/');
    assert(trim_end(t.push('/')) == t.push('/'));
    assert(trim(u.push('/')) == t.push('/'));
    lemma_trim_start_suffix(u);
    assert(t =~= u.skip(u.len() - t.len()));
    assert(!ends_with_colon_slash(t)) by {
        if t.len() >= 2 {
            assert(t[t.len() - 2] == u[u.len() - 2]);
        }
    }
    assert(t.len() > 0);
    assert(raw_identity(t) is Some);
    let (h, p) = raw_identity(t)->0;
    assert(normalise_repo_path(p).len() > 0);
    assert(strip_leading(p, '/').len() > 0) by {
        reveal_strlit(".git");
        if strip_leading(p, '/').len() == 0 {
            assert(strip_trailing(strip_leading(p, '/'), '/') == strip_leading(p, '/'));
            assert(!ends_with(strip_leading(p, '/'), ".git"@));
        }
    }
    lemma_raw_identity_push(t);
    lemma_normalise_push(p);
    assert(t.push('/').len() > 0);
}

} // verus!
