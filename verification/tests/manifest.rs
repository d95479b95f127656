use qeet::manifest::source::{Origin, choose_origin};
use qeet::manifest::validate::{check, path_issues_exec, ref_issues_exec, url_issues_exec};
use qeet::manifest::{LoadError, Manifest, Product, RepositoryEntry};
use qeet::remote::{Protocol, Remote};

fn entry(name: &str) -> RepositoryEntry {
    RepositoryEntry { name: name.into(), url: None, path: None, git_ref: None }
}

fn remote() -> Remote {
    Remote { host: "github.com".into(), owner: "qeetgroup".into(), protocol: Protocol::Ssh }
}

fn manifest_with_key(key: &str, repositories: Vec<RepositoryEntry>) -> Manifest {
    let mut m = Manifest::new(1, remote());
    m.insert_product(
        key.into(),
        Product { name: "Qeet ID".into(), directory: None, repositories },
    );
    m
}

fn with_repositories(repositories: Vec<RepositoryEntry>) -> Result<Manifest, LoadError> {
    manifest_with_key("id", repositories).accept("test")
}

fn issues_of(result: Result<Manifest, LoadError>) -> String {
    match result {
        Ok(_) => panic!("expected validation to fail"),
        Err(err @ LoadError::Invalid { .. }) => err.message(),
        Err(other) => panic!("expected a validation failure, got: {}", other.message()),
    }
}

#[test]
fn accepts_a_well_formed_product() {
    with_repositories(vec![entry("a"), entry("b")]).expect("should be valid");
}

#[test]
fn rejects_an_empty_repository_list() {
    let message = issues_of(with_repositories(vec![]));
    assert!(message.contains("`repositories` is empty"), "{message}");
}

#[test]
fn rejects_duplicate_repository_names() {
    let message = issues_of(with_repositories(vec![entry("a"), entry("a")]));
    assert!(message.contains("duplicate repository `a`"), "{message}");
}

#[test]
fn rejects_an_empty_repository_name() {
    let message = issues_of(with_repositories(vec![entry("")]));
    assert!(message.contains("`name` is empty"), "{message}");
}

#[test]
fn rejects_dangerous_urls() {
    let message =
        issues_of(with_repositories(vec![RepositoryEntry { url: Some("ext::sh".into()), ..entry("a") }]));
    assert!(message.contains("remote-helper transport"), "{message}");

    let message = issues_of(with_repositories(vec![RepositoryEntry {
        url: Some("--upload-pack=x".into()),
        ..entry("a")
    }]));
    assert!(message.contains("starts with '-'"), "{message}");

    let message = issues_of(with_repositories(vec![RepositoryEntry {
        url: Some("ftp://h/r.git".into()),
        ..entry("a")
    }]));
    assert!(message.contains("unsupported transport"), "{message}");
}

#[test]
fn rejects_absolute_and_escaping_paths() {
    let message = issues_of(with_repositories(vec![RepositoryEntry {
        path: Some("/etc/passwd".into()),
        ..entry("a")
    }]));
    assert!(message.contains("must be relative"), "{message}");

    let message = issues_of(with_repositories(vec![RepositoryEntry {
        path: Some("../outside".into()),
        ..entry("a")
    }]));
    assert!(message.contains("contains `..`"), "{message}");

    let message = issues_of(with_repositories(vec![RepositoryEntry {
        path: Some("nested/../../out".into()),
        ..entry("a")
    }]));
    assert!(message.contains("contains `..`"), "{message}");
}

#[test]
fn rejects_colliding_destinations() {
    let message = issues_of(with_repositories(vec![
        RepositoryEntry { path: Some("shared".into()), ..entry("a") },
        RepositoryEntry { path: Some("shared".into()), ..entry("b") },
    ]));
    assert!(message.contains("same destination `shared`"), "{message}");
    assert!(message.contains("a, b"), "should name both sides: {message}");
}

#[test]
fn detects_a_collision_between_a_path_and_a_bare_name() {
    let message = issues_of(with_repositories(vec![
        entry("a"),
        RepositoryEntry { path: Some("./a".into()), ..entry("b") },
    ]));
    assert!(message.contains("same destination `a`"), "{message}");
}

#[test]
fn rejects_a_bad_ref() {
    let message = issues_of(with_repositories(vec![RepositoryEntry {
        git_ref: Some("--exec=x".into()),
        ..entry("a")
    }]));
    assert!(message.contains("must not start with '-'"), "{message}");
}

#[test]
fn rejects_a_non_canonical_product_key() {
    let message = issues_of(manifest_with_key("ID", vec![entry("a")]).accept("test"));
    assert!(message.contains("must be lowercase"), "{message}");
}

#[test]
fn reports_every_problem_at_once() {
    let message = issues_of(with_repositories(vec![
        RepositoryEntry { url: Some("ext::sh".into()), ..entry("a") },
        RepositoryEntry { path: Some("/abs".into()), ..entry("a") },
    ]));
    assert!(message.contains("remote-helper"), "{message}");
    assert!(message.contains("duplicate repository"), "{message}");
    assert!(message.contains("must be relative"), "{message}");
}

#[test]
fn an_escaping_group_directory_is_refused() {
    let mut m = Manifest::new(1, remote());
    m.insert_product(
        "id".into(),
        Product { name: "Qeet ID".into(), directory: Some("../outside".into()), repositories: vec![entry("repo")] },
    );
    let message = issues_of(m.accept("test"));
    assert!(message.contains("contains `..`"), "{message}");
}

#[test]
fn rejects_an_unsupported_schema() {
    let mut m = manifest_with_key("id", vec![entry("qeet-id-server")]);
    m.set_schema(2);
    let err = m.accept("test").err().expect("schema 2 must be refused");
    assert_eq!(err, LoadError::Schema { found: 2 });
    assert_eq!(err.message(), "unsupported manifest schema 2 (this build of qeet supports schema 1)");
}

#[test]
fn derives_urls_but_prefers_an_explicit_override() {
    let manifest = with_repositories(vec![
        entry("derived"),
        RepositoryEntry { url: Some("https://elsewhere.example/thing.git".into()), ..entry("explicit") },
    ])
    .expect("should be valid");
    let repos = &manifest.get("id").expect("id").repositories;
    assert_eq!(manifest.url_for(&repos[0], Protocol::Ssh), "git@github.com:qeetgroup/derived.git");
    assert_eq!(
        manifest.url_for(&repos[0], Protocol::Https),
        "https://github.com/qeetgroup/derived.git"
    );
    assert_eq!(manifest.url_for(&repos[1], Protocol::Ssh), "https://elsewhere.example/thing.git");
}

#[test]
fn protocol_override_wins_over_the_manifest_default() {
    let manifest = with_repositories(vec![entry("qeet-id-server")]).expect("valid");
    assert_eq!(manifest.remote().effective_protocol(None), Protocol::Ssh);
    assert_eq!(manifest.remote().effective_protocol(Some(Protocol::Https)), Protocol::Https);
}

#[test]
fn products_stay_ordered_by_key_and_a_key_is_replaced_not_repeated() {
    let mut m = Manifest::new(1, remote());
    for key in ["pay", "id", "people", "id"] {
        m.insert_product(key.into(), Product { name: key.to_uppercase(), directory: None, repositories: vec![entry("a")] });
    }
    assert_eq!(m.product_keys(), vec!["id", "pay", "people"]);
    assert!(m.get("ID").is_none(), "lookup by exact key");
}

#[test]
fn issues_name_where_they_are() {
    let m = manifest_with_key("id", vec![entry("a"), RepositoryEntry { git_ref: Some("a b".into()), ..entry("b") }]);
    let issues = check(&m);
    assert_eq!(issues.len(), 1);
    assert_eq!(issues[0].message(), "products.id.repositories[1]: `ref` must not contain whitespace: `a b`");
}

#[test]
fn falls_back_to_the_embedded_manifest() {
    assert_eq!(choose_origin(None, None, None, false), Origin::Embedded);
}

#[test]
fn an_empty_environment_variable_is_treated_as_unset() {
    assert_eq!(choose_origin(None, Some(String::new()), None, false), Origin::Embedded);
}

#[test]
fn the_flag_wins_over_everything_else() {
    assert_eq!(
        choose_origin(Some("flag.toml".into()), Some("env.toml".into()), Some("user.toml".into()), true),
        Origin::Flag("flag.toml".into())
    );
}

#[test]
fn the_environment_wins_over_user_configuration() {
    assert_eq!(
        choose_origin(None, Some("env.toml".into()), Some("user.toml".into()), true),
        Origin::Environment("env.toml".into())
    );
}

#[test]
fn user_configuration_wins_over_embedded() {
    assert_eq!(
        choose_origin(None, None, Some("user.toml".into()), true),
        Origin::UserConfig("user.toml".into())
    );
}

#[test]
fn a_missing_user_configuration_file_is_not_an_error() {
    assert_eq!(choose_origin(None, None, Some("absent.toml".into()), false), Origin::Embedded);
}

#[test]
fn origins_are_named_for_the_user() {
    assert_eq!(Origin::Flag("/tmp/p.toml".into()).describe(), "--manifest /tmp/p.toml");
    assert_eq!(Origin::Environment("/tmp/p.toml".into()).describe(), "QEET_MANIFEST=/tmp/p.toml");
    assert_eq!(Origin::UserConfig("/c/products.toml".into()).describe(), "/c/products.toml");
    assert_eq!(Origin::Embedded.describe(), "built-in manifest");
}

#[test]
fn each_field_check_reports_one_issue_or_none() {
    let at = "products.id.repositories[0]".to_string();
    for bad in ["../outside", "nested/../../out"] {
        let issues = path_issues_exec(&at, "path", &bad.to_string());
        assert_eq!(issues.len(), 1);
        assert_eq!(
            issues[0].problem,
            format!("`path` must stay inside the workspace, but `{bad}` contains `..`")
        );
    }
    assert!(path_issues_exec(&at, "path", &"services/api".to_string()).is_empty());
    assert_eq!(path_issues_exec(&at, "path", &"/abs".to_string()).len(), 1);
    assert_eq!(path_issues_exec(&at, "path", &"  ".to_string()).len(), 1);

    let issues = ref_issues_exec(&at, &"--exec=x".to_string());
    assert_eq!(issues.len(), 1);
    assert_eq!(issues[0].at, at);
    assert_eq!(issues[0].problem, "`ref` must not start with '-': `--exec=x`");
    assert!(ref_issues_exec(&at, &"v1.2".to_string()).is_empty());
    assert_eq!(ref_issues_exec(&at, &"a b".to_string()).len(), 1);

    let m = manifest_with_key("id", vec![entry("a")]);
    let explicit = RepositoryEntry { url: Some("ftp://h/r.git".into()), ..entry("a") };
    let issues = url_issues_exec(&m, &at, &explicit);
    assert_eq!(issues.len(), 1);
    assert_eq!(
        issues[0].problem,
        "`url` is not usable: unsupported transport `ftp` (allowed: https, http, ssh, git, file)"
    );
    let fine = RepositoryEntry { url: Some("https://h/r.git".into()), ..entry("a") };
    assert!(url_issues_exec(&m, &at, &fine).is_empty());
}
