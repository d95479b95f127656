use qeet::manifest::{Manifest, Product, RepositoryEntry};
use qeet::product::{closest, levenshtein, resolve};
use qeet::remote::{Protocol, Remote};

fn product(name: &str, repository: &str) -> Product {
    Product {
        name: name.into(),
        directory: None,
        repositories: vec![RepositoryEntry {
            name: repository.into(),
            url: None,
            path: None,
            git_ref: None,
        }],
    }
}

fn manifest() -> Manifest {
    let mut m = Manifest::new(
        1,
        Remote { host: "github.com".into(), owner: "qeetgroup".into(), protocol: Protocol::Ssh },
    );
    m.insert_product("id".into(), product("Qeet ID", "qeet-id-server"));
    m.insert_product("pay".into(), product("Qeet Pay", "qeet-pay-server"));
    m.insert_product("people".into(), product("Qeet People", "qeet-people-server"));
    m.accept("test").expect("fixture must be valid")
}

#[test]
fn resolves_a_known_product() {
    let manifest = manifest();
    let product = resolve(&manifest, "id").expect("id should resolve");
    assert_eq!(product.name, "Qeet ID");
    assert_eq!(product.repositories[0].name, "qeet-id-server");
}

#[test]
fn resolution_is_case_insensitive_and_trims() {
    let manifest = manifest();
    for input in ["ID", "Id", "  id  ", "iD"] {
        let product = resolve(&manifest, input).unwrap_or_else(|_| panic!("{input}"));
        assert_eq!(product.name, "Qeet ID", "{input}");
    }
}

#[test]
fn an_unknown_product_lists_what_is_available() {
    let manifest = manifest();
    let err = resolve(&manifest, "xyz").expect_err("xyz must not resolve");
    assert_eq!(err.requested, "xyz");
    assert_eq!(err.available, vec!["id", "pay", "people"]);

    let message = err.message();
    assert!(message.contains("Unknown product: xyz"), "{message}");
    assert!(message.contains("Available products:"), "{message}");
    assert!(message.contains("  people"), "{message}");
}

#[test]
fn suggests_a_near_miss() {
    let manifest = manifest();
    let err = resolve(&manifest, "poeple").expect_err("typo must not resolve");
    assert_eq!(err.suggestion.as_deref(), Some("people"));
    assert!(err.message().contains("Did you mean `people`?"), "{}", err.message());
}

#[test]
fn does_not_suggest_something_unrelated() {
    let manifest = manifest();
    let err = resolve(&manifest, "kubernetes").expect_err("must not resolve");
    assert_eq!(err.suggestion, None);
    assert!(!err.message().contains("Did you mean"), "{}", err.message());
}

#[test]
fn short_keys_still_tolerate_one_edit() {
    let manifest = manifest();
    let err = resolve(&manifest, "pd").expect_err("must not resolve");
    assert!(err.suggestion.is_some(), "expected a suggestion for `pd`");
    let err = resolve(&manifest, "zz").expect_err("must not resolve");
    assert_eq!(err.suggestion, None);
}

#[test]
fn levenshtein_matches_known_distances() {
    assert_eq!(levenshtein("", ""), 0);
    assert_eq!(levenshtein("id", "id"), 0);
    assert_eq!(levenshtein("", "pay"), 3);
    assert_eq!(levenshtein("pay", ""), 3);
    assert_eq!(levenshtein("kitten", "sitting"), 3);
    assert_eq!(levenshtein("poeple", "people"), 2);
}

#[test]
fn levenshtein_is_symmetric_and_zero_only_on_equal_strings() {
    for (a, b) in [("kitten", "sitting"), ("flaw", "lawn"), ("", "abc"), ("über", "uber")] {
        assert_eq!(levenshtein(a, b), levenshtein(b, a), "{a} / {b}");
        assert!(levenshtein(a, b) > 0);
    }
    assert_eq!(levenshtein("über", "uber"), 1, "characters, not bytes, are edited");
}

#[test]
fn the_nearest_and_then_the_shortest_key_is_suggested() {
    let keys: Vec<String> = vec!["pays".into(), "par".into(), "pax".into()];
    assert_eq!(closest("pay", &keys).as_deref(), Some("par"), "equal distance, equal length: the first");
    let keys: Vec<String> = vec!["paysx".into(), "pays".into()];
    assert_eq!(closest("payss", &keys).as_deref(), Some("pays"), "equal distance: the shorter");
    assert_eq!(closest("", &keys), None, "an empty request gets no suggestion");
}

#[test]
fn the_unknown_product_message_is_exact() {
    let manifest = manifest();
    let err = resolve(&manifest, "poeple").expect_err("typo must not resolve");
    assert_eq!(
        err.message(),
        "Unknown product: poeple\n\nDid you mean `people`?\n\nAvailable products:\n  id\n  pay\n  people"
    );
}
