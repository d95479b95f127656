use qeet::commands::context::{canonical_key, destination, note_for};
use qeet::commands::doctor::{
    LsRemote, Verdict, access_verdict, closing_line, git_verdict, manifest_verdict, probe_target,
    ssh_verdict, tally, user_config_verdict, workspace_verdict,
};
use qeet::commands::listing::{entry_notes, location, products_footer, repo_word, repos_subtitle, repository_count};
use qeet::commands::self_update::{Installed, detect, route};
use qeet::commands::status::{Entry, Mark, classify_entry, clone_hint, footer, row, succeeded};
use qeet::commands::update::{Answer, Step, UpdateResult, next, report, result_line};
use qeet::error::{EXIT_CONFIG, EXIT_INCOMPLETE, EXIT_SUCCESS, EXIT_USAGE, argument_exit_code, run_exit_code};
use qeet::git::status::parse_status;
use qeet::git::{Failure, FailureKind};
use qeet::manifest::source::Origin;
use qeet::manifest::{Manifest, Product, RepositoryEntry};
use qeet::remote::{Protocol, Remote};
use qeet::workspace::Workspace;

#[test]
fn recognises_homebrew_layouts() {
    for path in [
        "/opt/homebrew/bin/qeet",
        "/opt/homebrew/Cellar/qeet/0.1.3/bin/qeet",
        "/usr/local/Cellar/qeet/0.1.3/bin/qeet",
        "/home/linuxbrew/.linuxbrew/bin/qeet",
    ] {
        assert_eq!(detect(Some(path), false), Installed::Homebrew, "{path}");
    }
}

#[test]
fn recognises_cargo_install() {
    assert_eq!(detect(Some("/Users/x/.cargo/bin/qeet"), false), Installed::Cargo);
}

#[test]
fn admits_when_it_cannot_tell() {
    assert_eq!(detect(Some("/opt/custom/qeet"), false), Installed::Unknown);
    assert_eq!(detect(None, false), Installed::Unknown);
}

#[test]
fn recognises_the_install_script_by_its_receipt() {
    assert_eq!(detect(Some("/Users/x/.local/bin/qeet"), true), Installed::Installer);
}

#[test]
fn homebrew_takes_priority_over_a_receipt() {
    assert_eq!(detect(Some("/opt/homebrew/bin/qeet"), true), Installed::Homebrew);
}

#[test]
fn every_route_names_its_upgrade_command() {
    assert_eq!(route(Installed::Homebrew), ("Homebrew", Some("brew update && brew upgrade qeet")));
    assert_eq!(route(Installed::Unknown), ("unrecognised", None));
    assert!(route(Installed::Cargo).1.unwrap().starts_with("cargo install"));
}

#[test]
fn the_documented_codes_are_distinct() {
    let codes = [EXIT_SUCCESS, EXIT_INCOMPLETE, EXIT_USAGE, EXIT_CONFIG];
    let unique: std::collections::HashSet<u8> = codes.iter().copied().collect();
    assert_eq!(unique.len(), codes.len(), "exit codes must not overlap");
}

#[test]
fn exit_codes_follow_the_report_and_the_command_line() {
    assert_eq!(run_exit_code(true), 0);
    assert_eq!(run_exit_code(false), 1);
    assert_eq!(argument_exit_code(true), 2);
    assert_eq!(argument_exit_code(false), 0);
    assert_eq!(EXIT_CONFIG, 3);
}

fn manifest() -> Manifest {
    let mut m = Manifest::new(
        1,
        Remote { host: "github.com".into(), owner: "qeetgroup".into(), protocol: Protocol::Ssh },
    );
    m.insert_product(
        "id".into(),
        Product {
            name: "Qeet ID".into(),
            directory: Some("qeet-id".into()),
            repositories: vec![RepositoryEntry { name: "qeet-id-server".into(), url: None, path: None, git_ref: None }],
        },
    );
    m.insert_product(
        "group".into(),
        Product {
            name: "Org".into(),
            directory: None,
            repositories: vec![
                RepositoryEntry { name: "qeet-docs".into(), url: None, path: Some("docs".into()), git_ref: Some("main".into()) },
                RepositoryEntry { name: "qeet-spec-files".into(), url: None, path: None, git_ref: None },
            ],
        },
    );
    m
}

#[test]
fn canonicalises_however_the_user_typed_it() {
    for input in ["id", "ID", "  Id  "] {
        assert_eq!(canonical_key(input), "id", "{input}");
    }
}

#[test]
fn destinations_honour_the_group_directory() {
    let workspace = Workspace::at_resolved("/work/qg".into());
    let manifest = manifest();
    assert_eq!(
        destination(&workspace, manifest.get("id").unwrap(), "qeet-id-server"),
        "/work/qg/qeet-id/qeet-id-server"
    );
    assert_eq!(destination(&workspace, manifest.get("group").unwrap(), "qeet-docs"), "/work/qg/qeet-docs");
}

#[test]
fn only_an_override_is_worth_a_note() {
    assert_eq!(note_for(&Origin::Embedded), None);
    assert_eq!(note_for(&Origin::Flag("/tmp/p.toml".into())).as_deref(), Some("--manifest /tmp/p.toml"));
}

#[test]
fn listings_describe_products_and_entries() {
    let manifest = manifest();
    assert_eq!(repo_word(1), "repo ");
    assert_eq!(repo_word(2), "repos");
    assert_eq!(location(manifest.get("id").unwrap()), "qeet-id");
    assert_eq!(location(manifest.get("group").unwrap()), ".");
    assert_eq!(repository_count(&manifest), 3);
    assert_eq!(products_footer(2, 3), "2 products, 3 repositories.  `qeet repos <product>` for detail.");
    assert_eq!(repos_subtitle(manifest.get("id").unwrap()), "1 repositories, into qeet-id/");
    assert_eq!(repos_subtitle(manifest.get("group").unwrap()), "2 repositories, into the current directory");
    let group = manifest.get("group").unwrap();
    assert_eq!(entry_notes(&group.repositories[0]).as_deref(), Some("(path docs, ref main)"));
    assert_eq!(entry_notes(&group.repositories[1]), None);
}

#[test]
fn doctor_reads_each_answer() {
    assert_eq!(git_verdict(Some("git version 2.45.0".into())), Verdict::Pass("git version 2.45.0".into()));
    assert!(matches!(git_verdict(None), Verdict::Fail(..)));
    assert_eq!(
        manifest_verdict(Ok((None, 9, 68))),
        Verdict::Pass("built-in registry — 9 products, 68 repositories".into())
    );
    assert_eq!(
        manifest_verdict(Err("invalid manifest (x):\n  - products: no products are defined".into())),
        Verdict::Fail("invalid".into(), "invalid manifest (x):".into())
    );
    assert_eq!(user_config_verdict(None, false), Verdict::Pass("none".into()));
    assert_eq!(
        user_config_verdict(Some("/c/products.toml"), false),
        Verdict::Pass("none (/c/products.toml would be used)".into())
    );
    assert_eq!(workspace_verdict(Ok("/w"), true), Verdict::Pass("/w is writable".into()));
    assert!(matches!(workspace_verdict(Err("gone"), false), Verdict::Fail(..)));
}

#[test]
fn doctor_reads_who_ssh_authenticates_as() {
    assert_eq!(
        ssh_verdict(Some("Hi octocat! You've successfully authenticated, but GitHub does not provide shell access.")),
        Verdict::Pass("authenticates as octocat".into())
    );
    assert!(matches!(ssh_verdict(Some("git@github.com: Permission denied (publickey).")), Verdict::Warn(d, _) if d == "key rejected"));
    assert!(matches!(ssh_verdict(Some("Connection closed")), Verdict::Warn(d, _) if d == "identity unclear"));
    assert!(matches!(ssh_verdict(None), Verdict::Warn(d, _) if d == "could not run ssh"));
}

#[test]
fn doctor_probes_a_private_specification_repository_first() {
    let manifest = manifest();
    assert_eq!(
        probe_target(&manifest),
        Some(("qeet-spec-files".into(), "git@github.com:qeetgroup/qeet-spec-files.git".into()))
    );
    let verdict = access_verdict(Some(("qeet-spec-files", Protocol::Ssh, LsRemote::Reached)));
    assert_eq!(verdict, Verdict::Pass("can reach qeet-spec-files over ssh".into()));
    let verdict = access_verdict(Some((
        "qeet-spec-files",
        Protocol::Ssh,
        LsRemote::Refused("ERROR: Repository not found.".into()),
    )));
    assert!(matches!(verdict, Verdict::Warn(d, _) if d == "cannot reach qeet-spec-files over ssh — The repository does not exist, or you cannot access it."));
}

#[test]
fn doctor_closes_with_a_verdict() {
    assert_eq!(closing_line(0, 0), "Ready.");
    assert_eq!(closing_line(0, 1), "Usable, with 1 thing worth looking at.");
    assert_eq!(closing_line(2, 1), "2 problems to fix before qeet will work.");
    let (failures, warnings, advice) = tally(&vec![
        Verdict::Pass("ok".into()),
        Verdict::Warn("w".into(), "look".into()),
        Verdict::Fail("f".into(), "fix".into()),
    ]);
    assert_eq!((failures, warnings), (1, 1));
    assert_eq!(advice, vec!["look".to_string(), "fix".to_string()]);
}

#[test]
fn status_lines_say_what_is_on_disk() {
    let behind = parse_status("# branch.head main\n# branch.upstream origin/main\n# branch.ab +0 -2\n");
    assert_eq!(row(&Entry::Present(behind)), (Mark::Attention, "main".into(), "2 behind".into()));
    let clean = parse_status("# branch.head main\n# branch.upstream origin/main\n# branch.ab +0 -0\n");
    assert_eq!(row(&Entry::Present(clean.clone())), (Mark::Clean, "main".into(), "clean".into()));
    assert_eq!(row(&Entry::Missing), (Mark::NotCloned, "—".into(), "not cloned".into()));
    assert_eq!(classify_entry(true, false, None), Entry::Unreadable("not a git repository".into()));
    assert_eq!(classify_entry(false, false, None), Entry::Missing);
    assert!(succeeded(&vec![Entry::Missing, Entry::Present(clean)]));
    assert!(!succeeded(&vec![Entry::Unreadable("x".into())]));
    assert_eq!(footer(1, 2, 3), "clean 1  ·  needs attention 2  ·  not cloned 3");
    assert_eq!(clone_hint("id"), "`qeet clone id` to fetch what is missing.");
}

fn run_update(answers: Vec<Answer>, dry_run: bool) -> UpdateResult {
    let mut step = Step::CheckExists;
    for answer in answers {
        step = next(step, answer, dry_run);
    }
    match step {
        Step::Done(result) => result,
        other => panic!("not finished: {other:?}"),
    }
}

#[test]
fn update_advances_only_what_is_strictly_behind() {
    let behind = parse_status("# branch.head main\n# branch.upstream origin/main\n# branch.ab +0 -1\n");
    let level = parse_status("# branch.head main\n# branch.upstream origin/main\n# branch.ab +0 -0\n");
    let dirty = parse_status("# branch.head main\n# branch.upstream origin/main\n? x\n");
    assert_eq!(
        run_update(
            vec![
                Answer::Yes(true),
                Answer::Yes(true),
                Answer::Inspected(Ok(level.clone())),
                Answer::Ran(Ok(())),
                Answer::Inspected(Ok(behind.clone())),
                Answer::Ran(Ok(())),
            ],
            false,
        ),
        UpdateResult::Advanced { from_behind: 1 }
    );
    assert_eq!(
        run_update(vec![Answer::Yes(true), Answer::Yes(true), Answer::Inspected(Ok(dirty))], false),
        UpdateResult::Skipped("1 uncommitted change".into())
    );
    assert_eq!(
        run_update(vec![Answer::Yes(true), Answer::Yes(true), Answer::Inspected(Ok(behind))], true),
        UpdateResult::Advanced { from_behind: 1 },
        "a dry run reports without fetching"
    );
    assert_eq!(run_update(vec![Answer::Yes(false)], false), UpdateResult::Missing);
    let failure = Failure { kind: FailureKind::Transient, exit_code: Some(128), git_stderr: "fatal: early EOF".into() };
    assert_eq!(
        run_update(
            vec![Answer::Yes(true), Answer::Yes(true), Answer::Inspected(Ok(level)), Answer::Ran(Err(failure))],
            false,
        ),
        UpdateResult::Failed("The connection to the remote failed. fatal: early EOF".into())
    );
    assert_eq!(result_line(&UpdateResult::Advanced { from_behind: 3 }, true), "would fast-forward 3 commit(s)");
    assert_eq!(result_line(&UpdateResult::Skipped("detached HEAD".into()), false), "skipped: detached HEAD");
}

#[test]
fn the_update_report_lists_pads_counts_and_advises() {
    let rows = vec![
        ("alpha".to_string(), UpdateResult::Advanced { from_behind: 2 }),
        ("b".to_string(), UpdateResult::Skipped("dirty".to_string())),
    ];
    assert_eq!(
        report("Qeet ID", false, Some("/c/x.toml"), &rows),
        "\nQeet ID\nmanifest: /c/x.toml\n\n  alpha  \u{2713} fast-forwarded 2 commit(s)\n  b      ! skipped: dirty\n\n  updated 1  \u{b7}  up to date 0  \u{b7}  skipped 1  \u{b7}  not cloned 0  \u{b7}  failed 0\n  Skipped repositories were left exactly as they were. Resolve them by hand.\n"
    );
    let rows = vec![("x".to_string(), UpdateResult::AlreadyCurrent)];
    assert_eq!(
        report("P", true, None, &rows),
        "\nP  (dry run \u{2014} nothing was changed)\n\n  x  \u{b7} already up to date\n\n  updated 0  \u{b7}  up to date 1  \u{b7}  skipped 0  \u{b7}  not cloned 0  \u{b7}  failed 0\n"
    );
}
