use context_info::alias::get_alias;
use context_info::alias::rewrite;
use context_info::alias::AliasMap;

fn table(entries: &[(&str, &str)]) -> AliasMap {
    let mut m = AliasMap::new();
    for (k, v) in entries {
        m.insert(k.to_string(), v.to_string());
    }
    m
}

#[test]
fn alias_map_starts_empty() {
    let m = AliasMap::new();
    assert_eq!(m.len(), 0);
    assert_eq!(m.get("anything"), None);
}

#[test]
fn alias_map_insert_and_get() {
    let mut m = AliasMap::new();
    assert_eq!(m.insert("u1".to_string(), "first".to_string()), None);
    assert_eq!(m.insert("u2".to_string(), "second".to_string()), None);
    assert_eq!(m.len(), 2);
    assert_eq!(m.get("u1"), Some("first"));
    assert_eq!(m.get("u2"), Some("second"));
    assert_eq!(m.get("u3"), None);
    assert_eq!(m.get("U1"), None);
}

#[test]
fn alias_map_insert_replaces_in_place() {
    let mut m = AliasMap::new();
    m.insert("u1".to_string(), "first".to_string());
    m.insert("u2".to_string(), "second".to_string());
    assert_eq!(m.insert("u1".to_string(), "again".to_string()), Some("first".to_string()));
    assert_eq!(m.len(), 2);
    assert_eq!(m.get("u1"), Some("again"));
    assert_eq!(m.get("u2"), Some("second"));
}

#[test]
fn rewrite_applies_the_template() {
    assert_eq!(rewrite("a(.*)", "x$1", "abc"), Some("xbc".to_string()));
    assert_eq!(rewrite("arn:aws:eks:[^:]+:\\d+:cluster/(.+)", "eks/$1", "arn:aws:eks:eu-west-1:1234:cluster/prod"), Some("eks/prod".to_string()));
}

#[test]
fn rewrite_is_anchored_at_both_ends() {
    assert_eq!(rewrite("foo", "bar", "foo"), Some("bar".to_string()));
    assert_eq!(rewrite("foo", "bar", "foobar"), None);
    assert_eq!(rewrite("foo", "bar", "xfoo"), None);
    assert_eq!(rewrite("foo", "bar", "a foo b"), None);
}

#[test]
fn rewrite_without_a_match_is_none() {
    assert_eq!(rewrite("a(.*)", "x$1", "bbc"), None);
    assert_eq!(rewrite("", "x", "abc"), None);
}

#[test]
fn rewrite_with_a_bad_pattern_is_none() {
    assert_eq!(rewrite("a(", "x", "a("), None);
    assert_eq!(rewrite("[", "x", "["), None);
}

#[test]
fn rewrite_that_gives_the_same_text_still_counts() {
    assert_eq!(rewrite("dev-.*", "$0", "dev-east"), Some("dev-east".to_string()));
    assert_eq!(rewrite("keep", "keep", "keep"), Some("keep".to_string()));
}

#[test]
fn get_alias_exact_key() {
    let m = table(&[("u1", "human-readable")]);
    assert_eq!(get_alias(&m, "u1").as_deref(), Some("human-readable"));
}

#[test]
fn get_alias_exact_key_wins_over_pattern() {
    let m = table(&[("u.*", "by-pattern"), ("u1", "by-key")]);
    assert_eq!(get_alias(&m, "u1").as_deref(), Some("by-key"));
    assert_eq!(get_alias(&m, "u2").as_deref(), Some("by-pattern"));
    let m = table(&[("u1", "by-key"), ("u.*", "by-pattern")]);
    assert_eq!(get_alias(&m, "u1").as_deref(), Some("by-key"));
}

#[test]
fn get_alias_exact_key_is_not_read_as_pattern() {
    let m = table(&[("a.c", "dotted")]);
    assert_eq!(get_alias(&m, "a.c").as_deref(), Some("dotted"));
    let m = table(&[("a(", "odd")]);
    assert_eq!(get_alias(&m, "a(").as_deref(), Some("odd"));
}

#[test]
fn get_alias_by_pattern_with_groups() {
    let m = table(&[("gke_[^_]+_[^_]+_(.+)", "gke/$1")]);
    assert_eq!(get_alias(&m, "gke_proj_europe-west1_main").as_deref(), Some("gke/main"));
}

#[test]
fn get_alias_first_matching_entry_wins() {
    let m = table(&[("nomatch", "n"), ("dev-(.*)", "first-$1"), ("dev-e(.*)", "second-$1")]);
    assert_eq!(get_alias(&m, "dev-east").as_deref(), Some("first-east"));
}

#[test]
fn get_alias_skips_bad_patterns() {
    let m = table(&[("(", "bad"), ("dev-(.*)", "ok-$1")]);
    assert_eq!(get_alias(&m, "dev-east").as_deref(), Some("ok-east"));
}

#[test]
fn get_alias_none_without_match() {
    let m = table(&[("u1", "x"), ("dev-(.*)", "y")]);
    assert_eq!(get_alias(&m, "prod"), None);
    let empty = AliasMap::new();
    assert_eq!(get_alias(&empty, "prod"), None);
}
