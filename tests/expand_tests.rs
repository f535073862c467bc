use config_workaround::expand::{expand_windows_env_vars, replace_literal, PlaceholderMap};

fn map_of(pairs: &[(&str, &str)]) -> PlaceholderMap {
    let mut m = PlaceholderMap::new();
    for (k, v) in pairs {
        m.insert(k, v);
    }
    m
}

#[test]
fn expands_two_overrides() {
    let ov = map_of(&[("A", "foo"), ("B", "bar")]);
    let env = PlaceholderMap::new();
    assert_eq!(expand_windows_env_vars("%A%/%B%/x", &ov, &env), "foo/bar/x");
}

#[test]
fn unset_placeholder_becomes_empty() {
    let ov = PlaceholderMap::new();
    let env = PlaceholderMap::new();
    assert_eq!(expand_windows_env_vars("%UNSET%", &ov, &env), "");
}

#[test]
fn text_without_placeholders_is_unchanged() {
    let ov = PlaceholderMap::new();
    let env = PlaceholderMap::new();
    assert_eq!(expand_windows_env_vars("no tokens", &ov, &env), "no tokens");
}

#[test]
fn environment_is_consulted_after_overrides() {
    let ov = map_of(&[("A", "over")]);
    let env = map_of(&[("A", "envA"), ("B", "envB")]);
    assert_eq!(expand_windows_env_vars("%A%-%B%-%C%", &ov, &env), "over-envB-");
}

#[test]
fn placeholder_names_are_case_sensitive() {
    let ov = map_of(&[("steamid", "lower")]);
    let env = PlaceholderMap::new();
    assert_eq!(expand_windows_env_vars("%STEAMID%", &ov, &env), "");
}

#[test]
fn lone_and_doubled_percent_signs() {
    let ov = map_of(&[("A", "x")]);
    let env = PlaceholderMap::new();
    assert_eq!(expand_windows_env_vars("50%", &ov, &env), "50%");
    assert_eq!(expand_windows_env_vars("%%A%", &ov, &env), "%x");
    assert_eq!(expand_windows_env_vars("a%A%b%c", &ov, &env), "axb%c");
}

#[test]
fn insert_replaces_earlier_value() {
    let ov = map_of(&[("A", "one"), ("A", "two")]);
    let env = PlaceholderMap::new();
    assert_eq!(expand_windows_env_vars("%A%", &ov, &env), "two");
    assert_eq!(ov.get(&"A".to_string()).map(|s| s.as_str()), Some("two"));
    assert_eq!(ov.get(&"B".to_string()), None);
}

#[test]
fn replace_literal_non_overlapping() {
    assert_eq!(replace_literal("aaa", "aa", "b"), "ba");
    assert_eq!(replace_literal("%X%/%X%", "%X%", ""), "/");
    assert_eq!(replace_literal("none", "%X%", "y"), "none");
}
