use qeet::manifest::{Product, RepositoryEntry};
use qeet::workspace::{
    Blocked, Finding, Probe, State, Workspace, display_path, escapes_root, is_within, join_paths,
    path_components, relative_destination,
};

const URL: &str = "git@github.com:qeetgroup/repo.git";

fn workspace() -> Workspace {
    Workspace::at_resolved("/w/qg".into())
}

/// Answer the probes of one destination in turn, as the filesystem and git would.
fn inspect(findings: Vec<Finding>) -> State {
    let ws = workspace();
    let mut probe = Workspace::first_probe(URL);
    for finding in findings {
        if let Probe::Verdict(state) = probe {
            return state;
        }
        probe = ws.inspect_step(URL, probe, finding);
    }
    match probe {
        Probe::Verdict(state) => state,
        other => panic!("inspection did not finish: {other:?}"),
    }
}

fn entry(name: &str, path: Option<&str>) -> RepositoryEntry {
    RepositoryEntry { name: name.into(), url: None, path: path.map(Into::into), git_ref: None }
}

#[test]
fn a_missing_destination_is_created() {
    let state = inspect(vec![Finding::Missing]);
    assert_eq!(state, State::Create);
    assert!(state.owns_destination(), "qeet created it, so qeet may clean it up");
}

#[test]
fn an_empty_destination_is_filled_but_not_owned() {
    let state = inspect(vec![
        Finding::Present,
        Finding::Resolved("/w/qg/repo".into()),
        Finding::Answer(true),
        Finding::Answer(true),
    ]);
    assert_eq!(state, State::FillEmpty);
    assert!(!state.owns_destination(), "a pre-existing directory is not ours to remove");
}

fn with_origin(origin: Option<&str>) -> State {
    inspect(vec![
        Finding::Present,
        Finding::Resolved("/w/qg/repo".into()),
        Finding::Answer(true),
        Finding::Answer(false),
        Finding::Answer(true),
        Finding::Origin(origin.map(Into::into)),
    ])
}

#[test]
fn a_matching_repository_is_already_present() {
    assert_eq!(with_origin(Some("https://github.com/qeetgroup/repo.git")), State::AlreadyPresent);
}

#[test]
fn workspace_a_different_repository_blocks_and_names_both_sides() {
    let State::Blocked(Blocked::DifferentRepository { origin, expected }) =
        with_origin(Some("git@github.com:someone/else.git"))
    else {
        panic!("expected DifferentRepository");
    };
    assert_eq!(origin, "git@github.com:someone/else.git");
    assert_eq!(expected, URL);
}

#[test]
fn a_repository_with_no_origin_is_not_assumed_to_match() {
    assert_eq!(with_origin(None), State::Blocked(Blocked::UnverifiableRepository { origin: None }));
}

#[test]
fn an_unparseable_origin_blocks_rather_than_guessing() {
    assert!(matches!(
        with_origin(Some("not-a-url")),
        State::Blocked(Blocked::UnverifiableRepository { origin: Some(_) })
    ));
}

#[test]
fn a_non_repository_directory_blocks() {
    let state = inspect(vec![
        Finding::Present,
        Finding::Resolved("/w/qg/repo".into()),
        Finding::Answer(true),
        Finding::Answer(false),
        Finding::Answer(false),
    ]);
    assert_eq!(state, State::Blocked(Blocked::NotARepository));
}

#[test]
fn workspace_a_file_in_the_way_blocks() {
    let state = inspect(vec![
        Finding::Present,
        Finding::Resolved("/w/qg/repo".into()),
        Finding::Answer(false),
    ]);
    assert_eq!(state, State::Blocked(Blocked::NotADirectory));
}

#[test]
fn a_symlinked_destination_pointing_outside_is_refused() {
    let state = inspect(vec![Finding::Present, Finding::Resolved("/w/outside".into())]);
    assert!(matches!(state, State::Blocked(Blocked::OutsideWorkspace { .. })), "{state:?}");
}

#[test]
fn a_dangling_symlink_is_reported_not_written_through() {
    let state = inspect(vec![Finding::Present, Finding::Failed("No such file or directory".into())]);
    assert!(matches!(state, State::Blocked(Blocked::Unreadable { .. })), "{state:?}");
}

#[test]
fn an_unusable_url_is_refused_before_the_filesystem_is_touched() {
    assert!(matches!(
        Workspace::first_probe("ext::sh"),
        Probe::Verdict(State::Blocked(Blocked::UnusableUrl { .. }))
    ));
}

#[test]
fn a_sibling_with_a_shared_prefix_is_not_treated_as_inside() {
    let ws = Workspace::at_resolved("/root/qg".into());
    let err = ws.candidate_for("../qg-evil/repo").expect_err("must refuse to escape");
    assert!(matches!(err, Blocked::OutsideWorkspace { .. }), "{err:?}");
    assert!(!is_within("/root/qg-evil/repo", "/root/qg"));
    assert!(is_within("/root/qg/repo", "/root/qg"));
}

#[test]
fn a_symlinked_parent_pointing_outside_is_refused() {
    let ws = workspace();
    let err = ws
        .confirm_inside(Ok("/w/outside".into()), &vec!["repo".into()])
        .expect_err("must refuse to write through the symlink");
    assert_eq!(err, Blocked::OutsideWorkspace { resolved: "/w/outside/repo".into() });
    assert_eq!(ws.confirm_inside(Ok("/w/qg/escape".into()), &vec!["repo".into()]), Ok(()));
    assert!(matches!(
        ws.confirm_inside(Err("permission denied".into()), &vec![]),
        Err(Blocked::Unreadable { .. })
    ));
}

#[test]
fn a_custom_path_is_honoured() {
    let product = Product { name: "Qeet ID".into(), directory: None, repositories: vec![] };
    let ws = workspace();
    let relative = relative_destination(&product, &entry("repo", Some("services/api")));
    assert_eq!(relative, "services/api");
    let plan = ws.finish(&entry("repo", Some("services/api")), &relative, URL.into(), State::Create);
    assert_eq!(plan.destination, "/w/qg/services/api");
    assert_eq!(plan.display, "services/api");
}

#[test]
fn repositories_are_grouped_under_the_product_directory() {
    let product = Product { name: "Qeet ID".into(), directory: Some("qeet-id".into()), repositories: vec![] };
    let ws = workspace();
    for (name, display) in [("qeet-id-server", "qeet-id/qeet-id-server"), ("qeet-id-console", "qeet-id/qeet-id-console")] {
        let relative = relative_destination(&product, &entry(name, None));
        let plan = ws.finish(&entry(name, None), &relative, URL.into(), State::Create);
        assert_eq!(plan.display, display);
        assert_eq!(plan.destination, format!("/w/qg/{display}"));
    }
}

#[test]
fn a_product_without_a_directory_stays_flat() {
    for directory in [None, Some("  ")] {
        let product = Product { name: "Org".into(), directory: directory.map(Into::into), repositories: vec![] };
        let relative = relative_destination(&product, &entry("qeet-docs", None));
        let plan = workspace().finish(&entry("qeet-docs", None), &relative, URL.into(), State::Create);
        assert_eq!(plan.display, "qeet-docs");
        assert_eq!(plan.destination, "/w/qg/qeet-docs");
    }
}

#[test]
fn a_path_override_is_relative_to_the_group_directory() {
    let product = Product { name: "Qeet ID".into(), directory: Some("qeet-id".into()), repositories: vec![] };
    let relative = relative_destination(&product, &entry("qeet-id-server", Some("services/api")));
    let plan = workspace().finish(&entry("qeet-id-server", Some("services/api")), &relative, URL.into(), State::Create);
    assert_eq!(plan.display, "qeet-id/services/api");
    assert_eq!(plan.destination, "/w/qg/qeet-id/services/api");
}

#[test]
fn escaping_relative_paths_are_refused_before_the_filesystem() {
    let ws = workspace();
    assert!(escapes_root(&"../x".to_string()));
    assert!(escapes_root(&"/etc".to_string()));
    assert!(!escapes_root(&"a/./b".to_string()));
    assert_eq!(
        ws.candidate_for("/etc/passwd"),
        Err(Blocked::OutsideWorkspace { resolved: "/etc/passwd".into() })
    );
    assert_eq!(ws.candidate_for("a/b"), Ok("/w/qg/a/b".to_string()));
}

#[test]
fn paths_are_compared_component_by_component() {
    let parts: Vec<String> = path_components("/a//b/./c/").iter().map(|p| p.iter().collect()).collect();
    assert_eq!(parts, ["/", "a", "b", "c"]);
    let parts: Vec<String> = path_components("./x").iter().map(|p| p.iter().collect()).collect();
    assert_eq!(parts, [".", "x"]);
    assert_eq!(join_paths("/w", "/abs"), "/abs");
    assert_eq!(join_paths("/w/", "a"), "/w/a");
    assert_eq!(display_path("/w", "/elsewhere/x"), "/elsewhere/x");
    assert_eq!(display_path("/w", "/w/a/b"), "a/b");
}

#[test]
fn refusals_explain_themselves_and_say_what_to_do() {
    let b = Blocked::DifferentRepository { origin: "o".into(), expected: "e".into() };
    assert_eq!(b.message(), "a different repository is already here\n  found:    o\n  expected: e");
    assert_eq!(b.guidance(), "Move or rename that directory, or point the manifest at the right repository.");
    assert_eq!(Blocked::NotADirectory.guidance(), Blocked::NotARepository.guidance());
    assert_eq!(
        Blocked::UnverifiableRepository { origin: None }.message(),
        "a git repository is already here, but it has no `origin` remote"
    );
}

#[test]
fn a_destination_is_shown_as_written_after_the_root() {
    assert_eq!(display_path("/w", "/w/a//b/"), "a//b");
    assert_eq!(display_path("/w", "/w/a/./b"), "a/./b");
    assert_eq!(display_path("/w", "/w/./x"), "x");
    assert_eq!(display_path("/w/", "/w/x/."), "x");
    assert_eq!(display_path("/w", "/w"), "");
    assert_eq!(display_path("/", "/a/b"), "a/b");
    assert_eq!(display_path("", "/a/"), "/a");
    assert_eq!(display_path("", "/"), "/");
    assert_eq!(display_path("", "./"), ".");
}

#[test]
fn a_plain_destination_is_shown_as_its_relative_path() {
    for rel in ["repo", "qeet-id/qeet-id-server", "qeet-id/services/api"] {
        assert_eq!(display_path("/w", &join_paths("/w", rel)), rel);
        assert_eq!(display_path("/w/", &join_paths("/w/", rel)), rel);
    }
}
