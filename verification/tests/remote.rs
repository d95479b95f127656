use qeet::remote::{Protocol, Remote, UrlError, UrlMatch, compare, validate};

fn remote() -> Remote {
    Remote { host: "github.com".into(), owner: "qeetgroup".into(), protocol: Protocol::Ssh }
}

#[test]
fn derives_ssh_and_https_urls() {
    assert_eq!(
        remote().url_for("qeet-id-server", Protocol::Ssh),
        "git@github.com:qeetgroup/qeet-id-server.git"
    );
    assert_eq!(
        remote().url_for("qeet-id-server", Protocol::Https),
        "https://github.com/qeetgroup/qeet-id-server.git"
    );
}

#[test]
fn derived_urls_are_always_valid() {
    for protocol in [Protocol::Ssh, Protocol::Https] {
        let url = remote().url_for("qeet-id-server", protocol);
        assert_eq!(validate(&url), Ok(()), "{url}");
    }
}

#[test]
fn accepts_the_transports_git_developers_actually_use() {
    for url in [
        "https://github.com/qeetgroup/qeet-id-server.git",
        "http://internal.example/repo.git",
        "ssh://git@github.com/qeetgroup/qeet-id-server.git",
        "ssh://git@github.com:2222/qeetgroup/repo.git",
        "git://example.com/repo.git",
        "file:///tmp/fixtures/repo.git",
        "git@github.com:qeetgroup/qeet-id-server.git",
        "/tmp/fixtures/repo.git",
        "./relative/repo.git",
        "C:/repos/repo.git",
    ] {
        assert_eq!(validate(url), Ok(()), "should accept {url}");
    }
}

#[test]
fn rejects_remote_helper_transports() {
    assert_eq!(validate("ext::sh"), Err(UrlError::RemoteHelper { helper: "ext".into() }));
    assert_eq!(
        validate("transport::whatever"),
        Err(UrlError::RemoteHelper { helper: "transport".into() })
    );
}

#[test]
fn rejects_option_injection() {
    assert_eq!(validate("--upload-pack=touch /tmp/pwned"), Err(UrlError::LeadsWithDash));
    assert_eq!(validate("-c"), Err(UrlError::LeadsWithDash));
}

#[test]
fn rejects_whitespace_and_empty() {
    assert_eq!(validate(""), Err(UrlError::Empty));
    assert_eq!(validate("ext::sh -c 'echo pwned'"), Err(UrlError::Whitespace));
    assert_eq!(validate("https://example.com/a b.git"), Err(UrlError::Whitespace));
}

#[test]
fn rejects_unknown_schemes() {
    assert_eq!(
        validate("ftp://example.com/repo.git"),
        Err(UrlError::UnsupportedScheme { scheme: "ftp".into() })
    );
    assert_eq!(
        validate("javascript://x/y"),
        Err(UrlError::UnsupportedScheme { scheme: "javascript".into() })
    );
}

#[test]
fn rejects_unrecognised_addresses() {
    assert_eq!(validate("not-a-url"), Err(UrlError::Unrecognised));
    assert_eq!(validate("https://"), Err(UrlError::Unrecognised));
}

#[test]
fn ipv6_hosts_are_not_mistaken_for_remote_helpers() {
    assert_eq!(validate("https://[::1]/repo.git"), Ok(()));
    assert_eq!(validate("ssh://git@[fe80::1]:22/qeetgroup/repo.git"), Ok(()));
}

#[test]
fn ssh_and_https_forms_of_one_repository_are_the_same() {
    for other in [
        "https://github.com/qeetgroup/qeet-id-server.git",
        "https://github.com/qeetgroup/qeet-id-server",
        "ssh://git@github.com/qeetgroup/qeet-id-server.git",
        "https://GitHub.com/qeetgroup/qeet-id-server.git",
        "git@github.com:qeetgroup/qeet-id-server",
    ] {
        assert_eq!(
            compare("git@github.com:qeetgroup/qeet-id-server.git", other),
            UrlMatch::Same,
            "{other}"
        );
    }
}

#[test]
fn different_repositories_are_different() {
    for other in [
        "git@github.com:qeetgroup/qeet-pay-server.git",
        "git@github.com:someone-else/qeet-id-server.git",
        "git@gitlab.com:qeetgroup/qeet-id-server.git",
        "https://github.com/qeetgroup/nested/qeet-id-server.git",
    ] {
        assert_eq!(
            compare("git@github.com:qeetgroup/qeet-id-server.git", other),
            UrlMatch::Different,
            "{other}"
        );
    }
}

#[test]
fn a_port_does_not_change_repository_identity() {
    assert_eq!(
        compare("ssh://git@github.com:2222/qeetgroup/repo.git", "git@github.com:qeetgroup/repo.git"),
        UrlMatch::Same
    );
}

#[test]
fn local_paths_and_file_urls_agree() {
    assert_eq!(compare("file:///tmp/fixtures/repo.git", "/tmp/fixtures/repo"), UrlMatch::Same);
}

#[test]
fn unparseable_urls_yield_no_verdict() {
    assert_eq!(compare("git@github.com:qeetgroup/repo.git", "garbage"), UrlMatch::Indeterminate);
    assert_eq!(compare("", "git@github.com:qeetgroup/repo.git"), UrlMatch::Indeterminate);
}

#[test]
fn comparison_is_symmetric_on_examples() {
    let urls = [
        "git@github.com:qeetgroup/repo.git",
        "https://github.com/qeetgroup/repo",
        "git@gitlab.com:qeetgroup/repo.git",
        "garbage",
        "",
    ];
    for a in urls {
        for b in urls {
            assert_eq!(compare(a, b), compare(b, a), "{a} / {b}");
        }
    }
}

#[test]
fn a_recognisable_url_is_the_same_as_itself() {
    assert_eq!(
        compare("https://github.com/qeetgroup/repo.git", "https://github.com/qeetgroup/repo.git"),
        UrlMatch::Same
    );
}

#[test]
fn url_error_messages_explain_the_refusal() {
    assert_eq!(UrlError::Empty.message(), "the URL is empty");
    assert_eq!(
        UrlError::RemoteHelper { helper: "ext".into() }.message(),
        "`ext::` is a git remote-helper transport, which can execute arbitrary commands"
    );
    assert_eq!(
        UrlError::UnsupportedScheme { scheme: "ftp".into() }.message(),
        "unsupported transport `ftp` (allowed: https, http, ssh, git, file)"
    );
}

#[test]
fn the_protocol_override_wins() {
    assert_eq!(remote().effective_protocol(None), Protocol::Ssh);
    assert_eq!(remote().effective_protocol(Some(Protocol::Https)), Protocol::Https);
    assert_eq!(Protocol::Https.name(), "https");
}

#[test]
fn both_transports_of_any_remote_name_one_repository() {
    let remote = Remote {
        host: "git.example.org".to_string(),
        owner: "platform-team".to_string(),
        protocol: Protocol::Https,
    };
    for name in ["tool", "nested/tool", "tool.git"] {
        let ssh = remote.url_for(name, Protocol::Ssh);
        let https = remote.url_for(name, Protocol::Https);
        assert_eq!(validate(&ssh), Ok(()), "{ssh}");
        assert_eq!(validate(&https), Ok(()), "{https}");
        assert_eq!(compare(&ssh, &https), UrlMatch::Same, "{ssh} vs {https}");
    }
}

#[test]
fn a_host_with_a_port_breaks_the_agreement_between_transports() {
    let remote = Remote {
        host: "git.example.org:2222".to_string(),
        owner: "team".to_string(),
        protocol: Protocol::Ssh,
    };
    let ssh = remote.url_for("tool", Protocol::Ssh);
    let https = remote.url_for("tool", Protocol::Https);
    assert_eq!(compare(&ssh, &https), UrlMatch::Different);
}
