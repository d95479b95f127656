use qeet::cli::{MAX_CONCURRENCY, parse_concurrency, parse_whole_number};

#[test]
fn rejects_a_concurrency_of_zero() {
    let err = parse_concurrency("0").expect_err("zero must be refused");
    assert!(err.contains("at least 1"), "{err}");
}

#[test]
fn rejects_a_negative_or_nonsense_concurrency() {
    for value in ["-1", "many", "1.5", ""] {
        assert!(parse_concurrency(value).is_err(), "`{value}` must be refused");
    }
}

#[test]
fn rejects_an_unbounded_concurrency() {
    let err = parse_concurrency("100000").expect_err("must be capped");
    assert!(err.contains("at most 64"), "{err}");
}

#[test]
fn accepts_every_concurrency_in_range() {
    assert_eq!(parse_concurrency("6"), Ok(6));
    assert_eq!(parse_concurrency("1"), Ok(1));
    assert_eq!(parse_concurrency("64"), Ok(MAX_CONCURRENCY));
    assert_eq!(parse_concurrency("+8"), Ok(8));
    assert_eq!(parse_concurrency("many"), Err("`many` is not a whole number".to_string()));
    assert_eq!(parse_concurrency("65"), Err("concurrency must be at most 64".to_string()));
}

#[test]
fn whole_numbers_parse_like_the_standard_library() {
    for raw in ["0", "7", "+7", "007", "18446744073709551615", "18446744073709551616", "", "+", "-0", " 1", "1e3"] {
        assert_eq!(parse_whole_number(raw), raw.parse::<usize>().ok(), "{raw:?}");
    }
}
