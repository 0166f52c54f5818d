use shipwright::config::{parse_interval, parse_namespaces, DEFAULT_INTERVAL_SECS, DEFAULT_NAMESPACES};

#[test]
fn namespaces_split_on_commas_without_spaces() {
    assert_eq!(parse_namespaces("team-a, team-b ,c"), vec!["team-a", "team-b", "c"]);
}

#[test]
fn single_namespace() {
    assert_eq!(parse_namespaces(DEFAULT_NAMESPACES), vec!["default"]);
}

#[test]
fn empty_namespace_list_gives_one_empty_name() {
    assert_eq!(parse_namespaces(""), vec![""]);
    assert_eq!(parse_namespaces("a,,b"), vec!["a", "", "b"]);
}

#[test]
fn interval_parses_decimal_seconds() {
    assert_eq!(parse_interval("60"), Some(60));
    assert_eq!(parse_interval("60"), Some(DEFAULT_INTERVAL_SECS));
    assert_eq!(parse_interval("+5"), Some(5));
    assert_eq!(parse_interval("0"), Some(0));
    assert_eq!(parse_interval("18446744073709551615"), Some(u64::MAX));
}

#[test]
fn malformed_interval_is_rejected() {
    assert_eq!(parse_interval(""), None);
    assert_eq!(parse_interval("+"), None);
    assert_eq!(parse_interval("6o"), None);
    assert_eq!(parse_interval("-5"), None);
    assert_eq!(parse_interval(" 60"), None);
    assert_eq!(parse_interval("18446744073709551616"), None);
}
