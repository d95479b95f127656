//! `qeet doctor`: can this machine actually use qeet?
//!
//! Each check is a fact, not a guess, and each failure says what to do. Running git, ssh
//! and the filesystem probes is the caller's work; what each answer means is decided here.
use vstd::prelude::*;

use crate::git::classify::{classification, classify, summary_text};
use crate::manifest::{Manifest, ProductView, RepositoryEntry, entry_url, product_views};
use crate::remote::Protocol;
use crate::text::{
    char_pos, char_pos_exec, chars_of, contains, contains_exec, decimal, ends_with, ends_with_exec,
    find, find_exec, push_chars, push_decimal, push_str, seq_lt, lt_chars, string_of};

verus! {

broadcast use vstd::string::group_string_axioms;

/// The answer of one check.
#[derive(Debug, Clone, PartialEq, Eq)]
pub enum Verdict {
    Pass(String),
    /// What was found, and what to do about it.
    Warn(String, String),
    /// What was found, and what to do about it.
    Fail(String, String)}

pub enum VerdictView {
    Pass(Seq<char>),
    Warn(Seq<char>, Seq<char>),
    Fail(Seq<char>, Seq<char>)}

impl View for Verdict {
    type V = VerdictView;

    open spec fn view(&self) -> VerdictView {
        match self {
            Verdict::Pass(d) => VerdictView::Pass(d@),
            Verdict::Warn(d, h) => VerdictView::Warn(d@, h@),
            Verdict::Fail(d, h) => VerdictView::Fail(d@, h@)}
    }
}

fn text(s: &str) -> (t: String)
    ensures
        t@ == s@,
{
    String::from_str(s)
}

fn joined(a: &str, b: &str) -> (t: String)
    ensures
        t@ == a@ + b@,
{
    let mut t = String::from_str(a);
    push_str(&mut t, b);
    t
}

/// The git check: its version, or that it is missing.
pub fn git_verdict(version: Option<String>) -> (v: Verdict)
    ensures
        v@ == match version {
            Some(found) => VerdictView::Pass(found@),
            None => VerdictView::Fail(
                "not found"@,
                "Install git and make sure it is on your PATH."@,
            )},
{
    match version {
        Some(found) => Verdict::Pass(found),
        None => Verdict::Fail(text("not found"), text("Install git and make sure it is on your PATH."))}
}

/// The manifest check: where the manifest in effect came from and what it holds, or the
/// first line of why it could not be used.
pub open spec fn manifest_verdict_of(
    loaded: Result<(Option<Seq<char>>, nat, nat), Seq<char>>,
) -> VerdictView {
    match loaded {
        Ok((note, products, repositories)) => VerdictView::Pass(
            match note {
                Some(n) => n,
                None => "built-in registry"@} + " — "@ + decimal(products) + " products, "@ + decimal(repositories)
                + " repositories"@,
        ),
        Err(message) => VerdictView::Fail(
            "invalid"@,
            if crate::text::lines(message).len() == 0 {
                "see `qeet products`"@
            } else {
                crate::text::lines(message)[0]
            },
        )}
}

/// The manifest check, from the note of a manifest that loaded with its product and
/// repository counts, or from the message of why it did not.
pub fn manifest_verdict(loaded: Result<(Option<String>, usize, usize), String>) -> (v: Verdict)
    ensures
        v@ == manifest_verdict_of(
            match loaded {
                Ok((note, p, r)) => Ok((crate::text::opt_view(note), p as nat, r as nat)),
                Err(m) => Err(m@)},
        ),
{
    match loaded {
        Ok((note, products, repositories)) => {
            let mut d = match note {
                Some(n) => n,
                None => text("built-in registry")};
            push_str(&mut d, " — ");
            push_decimal(&mut d, products as u64);
            push_str(&mut d, " products, ");
            push_decimal(&mut d, repositories as u64);
            push_str(&mut d, " repositories");
            Verdict::Pass(d)
        },
        Err(message) => {
            let ls = crate::text::lines_exec(&chars_of(message.as_str()));
            let first = if ls.len() == 0 {
                text("see `qeet products`")
            } else {
                string_of(&ls[0])
            };
            Verdict::Fail(text("invalid"), first)
        }}
}

/// The user-configuration check. An override is a legitimate setup -- it is how qeet is
/// pointed at an SSH host alias -- so it is reported, never warned about.
pub fn user_config_verdict(path: Option<&str>, exists: bool) -> (v: Verdict)
    ensures
        v@ == match path {
            Some(p) => if exists {
                VerdictView::Pass(
                    p@ + " in effect (delete it to fall back to the built-in registry)"@,
                )
            } else {
                VerdictView::Pass("none ("@ + p@ + " would be used)"@)
            },
            None => VerdictView::Pass("none"@)},
{
    match path {
        Some(p) => if exists {
            Verdict::Pass(joined(p, " in effect (delete it to fall back to the built-in registry)"))
        } else {
            let mut d = text("none (");
            push_str(&mut d, p);
            push_str(&mut d, " would be used)");
            Verdict::Pass(d)
        },
        None => Verdict::Pass(text("none"))}
}

/// The workspace check: whether the current directory can be written to.
pub fn workspace_verdict(dir: Result<&str, &str>, writable: bool) -> (v: Verdict)
    ensures
        v@ == match dir {
            Ok(d) => if writable {
                VerdictView::Pass(d@ + " is writable"@)
            } else {
                VerdictView::Fail(
                    d@ + " is not writable"@,
                    "Change to a directory you own before cloning."@,
                )
            },
            Err(e) => VerdictView::Fail(e@, "Change to a valid directory."@)},
{
    match dir {
        Ok(d) => if writable {
            Verdict::Pass(joined(d, " is writable"))
        } else {
            Verdict::Fail(joined(d, " is not writable"), text("Change to a directory you own before cloning."))
        },
        Err(e) => Verdict::Fail(text(e), text("Change to a valid directory."))}
}

/// `text.split("Hi ").nth(1)`: what follows the first greeting, up to the next one.
pub open spec fn after_greeting(out: Seq<char>) -> Option<Seq<char>> {
    match find(out, seq!['H', 'i', ' ']) {
        None => None,
        Some(i) => {
            let rest = out.skip(i + 3);
            match find(rest, seq!['H', 'i', ' ']) {
                Some(j) => Some(rest.take(j)),
                None => Some(rest)}
        }}
}

/// The account a git host greets: `Hi <user>!`, up to the `!`.
pub open spec fn greeted_user(out: Seq<char>) -> Option<Seq<char>> {
    match after_greeting(out) {
        Some(r) => Some(
            match char_pos(r, '!') {
                Some(k) => r.take(k),
                None => r},
        ),
        None => None}
}

/// The SSH identity check, from what `ssh -T` printed (stdout then stderr), or none when
/// ssh could not be run. A host answers `Hi <user>!` and exits non-zero, which is success
/// here: only the name is wanted.
pub open spec fn ssh_verdict_of(output: Option<Seq<char>>) -> VerdictView {
    match output {
        None => VerdictView::Warn(
            "could not run ssh"@,
            "Not fatal — HTTPS works too: `qeet clone <product> --protocol https`."@,
        ),
        Some(out) => match greeted_user(out) {
            Some(user) => VerdictView::Pass("authenticates as "@ + user),
            None => if contains(out, "Permission denied"@) {
                VerdictView::Warn(
                    "key rejected"@,
                    "SSH will not reach private repositories. Use --protocol https, or add a key."@,
                )
            } else {
                VerdictView::Warn(
                    "identity unclear"@,
                    "Run `ssh -T git@github.com` yourself to see which account answers."@,
                )
            }}}
}

fn greeting_user_exec(v: &Vec<char>) -> (u: Option<Vec<char>>)
    ensures
        match u {
            Some(x) => greeted_user(v@) == Some(x@),
            None => greeted_user(v@) is None},
{
    let hi = chars_of("Hi ");
    proof {
        reveal_strlit("Hi ");
        assert(hi@ =~= seq!['H', 'i', ' ']);
    }
    match find_exec(v, &hi) {
        None => None,
        Some(i) => {
            proof {
                crate::text::lemma_contains(v@, hi@);
            }
            let n = v.len();
            assert(i + 3 <= n);
            let rest = crate::text::sub_vec(v, i + 3, n);
            assert(rest@ =~= v@.skip(i + 3));
            let piece = match find_exec(&rest, &hi) {
                Some(j) => {
                    proof {
                        crate::text::lemma_contains(rest@, hi@);
                    }
                    let p = crate::text::sub_vec(&rest, 0, j);
                    assert(p@ =~= rest@.take(j as int));
                    p
                },
                None => rest};
            match char_pos_exec(&piece, '!') {
                Some(k) => {
                    proof {
                        crate::text::lemma_char_pos(piece@, '!');
                    }
                    let p = crate::text::sub_vec(&piece, 0, k);
                    assert(p@ =~= piece@.take(k as int));
                    Some(p)
                },
                None => Some(piece)}
        }}
}

/// The SSH identity check.
pub fn ssh_verdict(output: Option<&str>) -> (v: Verdict)
    ensures
        v@ == ssh_verdict_of(
            match output {
                Some(o) => Some(o@),
                None => None},
        ),
{
    match output {
        None => Verdict::Warn(
            text("could not run ssh"),
            text("Not fatal — HTTPS works too: `qeet clone <product> --protocol https`."),
        ),
        Some(out) => {
            let v = chars_of(out);
            match greeting_user_exec(&v) {
                Some(user) => {
                    let mut d = text("authenticates as ");
                    push_chars(&mut d, &user, 0, user.len());
                    assert(user@.subrange(0, user@.len() as int) == user@);
                    Verdict::Pass(d)
                },
                None => if contains_exec(&v, &chars_of("Permission denied")) {
                    Verdict::Warn(
                        text("key rejected"),
                        text(
                            "SSH will not reach private repositories. Use --protocol https, or add a key.",
                        ),
                    )
                } else {
                    Verdict::Warn(
                        text("identity unclear"),
                        text("Run `ssh -T git@github.com` yourself to see which account answers."),
                    )
                }}
        }}
}

/// The closing line: ready, usable with warnings, or how many problems to fix first.
pub open spec fn closing_text(failures: nat, warnings: nat) -> Seq<char> {
    if failures == 0 && warnings == 0 {
        "Ready."@
    } else if failures == 0 {
        "Usable, with "@ + decimal(warnings) + " thing"@ + (if warnings == 1 {
            Seq::<char>::empty()
        } else {
            "s"@
        }) + " worth looking at."@
    } else {
        decimal(failures) + " problem"@ + (if failures == 1 {
            Seq::<char>::empty()
        } else {
            "s"@
        }) + " to fix before qeet will work."@
    }
}

/// The closing line of the report.
pub fn closing_line(failures: usize, warnings: usize) -> (s: String)
    ensures
        s@ == closing_text(failures as nat, warnings as nat),
{
    if failures == 0 && warnings == 0 {
        return text("Ready.");
    }
    let mut s = String::new();
    if failures == 0 {
        push_str(&mut s, "Usable, with ");
        push_decimal(&mut s, warnings as u64);
        push_str(&mut s, " thing");
        if warnings != 1 {
            push_str(&mut s, "s");
        }
        push_str(&mut s, " worth looking at.");
    } else {
        push_decimal(&mut s, failures as u64);
        push_str(&mut s, " problem");
        if failures != 1 {
            push_str(&mut s, "s");
        }
        push_str(&mut s, " to fix before qeet will work.");
    }
    s
}

/// Count the failures and warnings among the verdicts, and gather their advice in order.
pub open spec fn advice_of(vs: Seq<VerdictView>) -> Seq<Seq<char>>
    decreases vs.len(),
{
    if vs.len() == 0 {
        Seq::<Seq<char>>::empty()
    } else {
        advice_of(vs.drop_last()) + match vs.last() {
            VerdictView::Pass(_) => Seq::<Seq<char>>::empty(),
            VerdictView::Warn(_, h) => seq![h],
            VerdictView::Fail(_, h) => seq![h]}
    }
}

pub open spec fn failures_of(vs: Seq<VerdictView>) -> nat
    decreases vs.len(),
{
    if vs.len() == 0 {
        0
    } else {
        failures_of(vs.drop_last()) + if vs.last() is Fail {
            1nat
        } else {
            0nat
        }
    }
}

pub open spec fn warnings_of(vs: Seq<VerdictView>) -> nat
    decreases vs.len(),
{
    if vs.len() == 0 {
        0
    } else {
        warnings_of(vs.drop_last()) + if vs.last() is Warn {
            1nat
        } else {
            0nat
        }
    }
}

pub open spec fn verdict_views(vs: Seq<Verdict>) -> Seq<VerdictView> {
    vs.map_values(|v: Verdict| v@)
}

/// The failures, the warnings, and the advice of every verdict that is not a pass. The
/// machine is ready for qeet exactly when there are no failures.
pub fn tally(verdicts: &Vec<Verdict>) -> (r: (usize, usize, Vec<String>))
    ensures
        r.0 == failures_of(verdict_views(verdicts@)),
        r.1 == warnings_of(verdict_views(verdicts@)),
        r.2@.map_values(|s: String| s@) == advice_of(verdict_views(verdicts@)),
{
    let ghost vs = verdict_views(verdicts@);
    let mut failures: usize = 0;
    let mut warnings: usize = 0;
    let mut advice: Vec<String> = Vec::new();
    for i in 0..verdicts.len()
        invariant
            vs == verdict_views(verdicts@),
            failures == failures_of(vs.take(i as int)),
            warnings == warnings_of(vs.take(i as int)),
            failures + warnings <= i,
            advice@.map_values(|s: String| s@) == advice_of(vs.take(i as int)),
    {
        assert(vs.take(i + 1).drop_last() == vs.take(i as int));
        let ghost before = advice@.map_values(|s: String| s@);
        match &verdicts[i] {
            Verdict::Pass(_) => {
                assert(advice@.map_values(|s: String| s@) =~= advice_of(vs.take(i + 1)));
            },
            Verdict::Warn(_, hint) => {
                warnings = warnings + 1;
                advice.push(crate::text::copy_string(hint));
                assert(advice@.map_values(|s: String| s@) =~= before.push(hint@));
            },
            Verdict::Fail(_, hint) => {
                failures = failures + 1;
                advice.push(crate::text::copy_string(hint));
                assert(advice@.map_values(|s: String| s@) =~= before.push(hint@));
            }}
    }
    assert(vs.take(verdicts@.len() as int) == vs);
    (failures, warnings, advice)
}

/// What `git ls-remote` against the probe repository came to.
#[derive(Debug, Clone, PartialEq, Eq)]
pub enum LsRemote {
    /// It succeeded.
    Reached,
    /// It ran and failed; what git printed on stderr.
    Refused(String),
    /// It could not be run; the error's message.
    NotRun(String)}

/// Is repository `a` a sharper test of access than `b`? A private specification repository
/// (`*-files`) first -- a public repository answers any identity and proves nothing --
/// then by name.
pub open spec fn sharper(a: Seq<char>, b: Seq<char>) -> bool {
    let af = ends_with(a, "-files"@);
    let bf = ends_with(b, "-files"@);
    (af && !bf) || (af == bf && seq_lt(a, b))
}

/// Every repository of the manifest, product by product in key order.
pub open spec fn all_entries(products: Seq<(Seq<char>, ProductView)>) -> Seq<crate::manifest::EntryView>
    decreases products.len(),
{
    if products.len() == 0 {
        Seq::empty()
    } else {
        all_entries(products.drop_last()) + products.last().1.repositories
    }
}

/// The index of the sharpest repository among the first `n`: the first of the sharpest.
pub open spec fn sharpest(entries: Seq<crate::manifest::EntryView>, n: int) -> Option<int>
    decreases n,
{
    if n <= 0 {
        None
    } else {
        match sharpest(entries, n - 1) {
            None => Some(n - 1),
            Some(b) => if sharper(entries[n - 1].name, entries[b].name) {
                Some(n - 1)
            } else {
                Some(b)
            }}
    }
}

/// The repository the remote-access check tries, and the URL it is reached by with the
/// manifest's default transport; none when the manifest lists no repository.
pub open spec fn probe_target_of(m: crate::manifest::ManifestView) -> Option<(Seq<char>, Seq<char>)> {
    let es = all_entries(m.products);
    match sharpest(es, es.len() as int) {
        Some(i) => Some((es[i].name, entry_url(m.host, m.owner, es[i], m.protocol))),
        None => None}
}

proof fn lemma_sharpest_in_range(entries: Seq<crate::manifest::EntryView>, n: int)
    requires
        0 <= n <= entries.len(),
    ensures
        sharpest(entries, n) matches Some(b) ==> 0 <= b < n,
        n > 0 ==> sharpest(entries, n) is Some,
    decreases n,
{
    if n > 0 {
        lemma_sharpest_in_range(entries, n - 1);
    }
}

pub open spec fn entry_refs(v: Seq<&RepositoryEntry>) -> Seq<crate::manifest::EntryView> {
    v.map_values(|e: &RepositoryEntry| e@)
}

/// Every repository of the manifest, product by product.
fn every_entry(manifest: &Manifest) -> (flat: Vec<&RepositoryEntry>)
    ensures
        entry_refs(flat@) == all_entries(manifest@.products),
{
    let products = manifest.products();
    let ghost ps = manifest@.products;
    let mut flat: Vec<&RepositoryEntry> = Vec::new();
    for i in 0..products.len()
        invariant
            ps == manifest@.products,
            product_views(products@) == ps,
            ps.len() == products@.len(),
            entry_refs(flat@) == all_entries(ps.take(i as int)),
    {
        let p = &products[i].product;
        assert(ps[i as int].1 == p@);
        assert(ps.take(i + 1).drop_last() == ps.take(i as int));
        let ghost start = entry_refs(flat@);
        let ghost base = flat@;
        for j in 0..p.repositories.len()
            invariant
                start == entry_refs(base),
                flat@.len() == base.len() + j,
                entry_refs(flat@) == start + p@.repositories.take(j as int),
        {
            let ghost before = entry_refs(flat@);
            flat.push(&p.repositories[j]);
            assert(p@.repositories[j as int] == p.repositories@[j as int]@);
            assert forall|x: int| 0 <= x < flat@.len() implies #[trigger] entry_refs(flat@)[x] == (start
                + p@.repositories.take(j + 1))[x] by {
                if x < flat@.len() - 1 {
                    assert(entry_refs(flat@)[x] == before[x]);
                }
            }
            assert(entry_refs(flat@) =~= start + p@.repositories.take(j + 1));
        }
        assert(p@.repositories.take(p.repositories@.len() as int) == p@.repositories);
    }
    assert(ps.take(ps.len() as int) == ps);
    flat
}

/// The repository the remote-access check tries, and its URL.
pub fn probe_target(manifest: &Manifest) -> (r: Option<(String, String)>)
    ensures
        match r {
            Some((name, url)) => probe_target_of(manifest@) == Some((name@, url@)),
            None => probe_target_of(manifest@) is None},
{
    let flat = every_entry(manifest);
    let ghost es = entry_refs(flat@);
    let files = chars_of("-files");
    let mut best: Option<usize> = None;
    let mut best_name: Vec<char> = Vec::new();
    for k in 0..flat.len()
        invariant
            es == entry_refs(flat@),
            files@ == "-files"@,
            match best {
                None => sharpest(es, k as int) is None,
                Some(b) => b < k && sharpest(es, k as int) == Some(b as int) && best_name@
                    == es[b as int].name},
    {
        proof {
            lemma_sharpest_in_range(es, k as int);
        }
        let name = chars_of(flat[k].name.as_str());
        assert(name@ == es[k as int].name);
        match best {
            None => {
                best = Some(k);
                best_name = name;
            },
            Some(_) => {
                let af = ends_with_exec(&name, &files);
                let bf = ends_with_exec(&best_name, &files);
                if (af && !bf) || (af == bf && lt_chars(&name, &best_name)) {
                    best = Some(k);
                    best_name = name;
                }
            }}
    }
    match best {
        Some(b) => {
            let entry = flat[b];
            let url = manifest.url_for(entry, manifest.remote().protocol);
            Some((crate::text::copy_string(&entry.name), url))
        },
        None => None}
}

/// The remote-access check: whether one real repository can be reached with the identity
/// in use. A wrong SSH identity looks exactly like "repository not found", and nothing else
/// in the CLI can tell the difference.
pub open spec fn access_verdict_of(target: Option<(Seq<char>, Protocol, LsRemoteView)>) -> VerdictView {
    match target {
        None => VerdictView::Warn("no repositories in the manifest"@, "Check the manifest."@),
        Some((repo, protocol, outcome)) => match outcome {
            LsRemoteView::Reached => VerdictView::Pass(
                "can reach "@ + repo + " over "@ + protocol.spec_name(),
            ),
            LsRemoteView::Refused(stderr) => VerdictView::Warn(
                "cannot reach "@ + repo + " over "@ + protocol.spec_name() + " — "@ + summary_text(
                    classification(stderr),
                ),
                "This identity cannot see "@ + repo
                    + ". Either use `--protocol https`, or point the manifest at an SSH host alias that has access (see the README)."@,
            ),
            LsRemoteView::NotRun(e) => VerdictView::Warn(
                "could not run git ls-remote: "@ + e,
                "Check that git is on your PATH."@,
            )}}
}

pub enum LsRemoteView {
    Reached,
    Refused(Seq<char>),
    NotRun(Seq<char>)}

impl View for LsRemote {
    type V = LsRemoteView;

    open spec fn view(&self) -> LsRemoteView {
        match self {
            LsRemote::Reached => LsRemoteView::Reached,
            LsRemote::Refused(s) => LsRemoteView::Refused(s@),
            LsRemote::NotRun(e) => LsRemoteView::NotRun(e@)}
    }
}

/// The remote-access check, from the repository tried, its transport and how
/// `git ls-remote` went; none when there was no repository to try.
pub fn access_verdict(target: Option<(&str, Protocol, LsRemote)>) -> (v: Verdict)
    ensures
        v@ == access_verdict_of(
            match target {
                Some((repo, protocol, outcome)) => Some((repo@, protocol, outcome@)),
                None => None},
        ),
{
    match target {
        None => Verdict::Warn(text("no repositories in the manifest"), text("Check the manifest.")),
        Some((repo, protocol, outcome)) => {
            let mut over = joined("can reach ", repo);
            push_str(&mut over, " over ");
            push_str(&mut over, protocol.name());
            match outcome {
                LsRemote::Reached => Verdict::Pass(over),
                LsRemote::Refused(stderr) => {
                    let mut d = joined("cannot reach ", repo);
                    push_str(&mut d, " over ");
                    push_str(&mut d, protocol.name());
                    push_str(&mut d, " — ");
                    push_str(&mut d, classify(stderr.as_str()).summary());
                    let mut h = joined("This identity cannot see ", repo);
                    push_str(
                        &mut h,
                        ". Either use `--protocol https`, or point the manifest at an SSH host alias that has access (see the README).",
                    );
                    Verdict::Warn(d, h)
                },
                LsRemote::NotRun(e) => Verdict::Warn(
                    joined("could not run git ls-remote: ", e.as_str()),
                    text("Check that git is on your PATH."),
                )}
        }}
}

} // verus!
