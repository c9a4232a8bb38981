use replacer::ignore::{compile_ignore, should_skip_file};
use replacer::pairs::parse_pair;
use replacer::resolve::{finalize_ignore, merge_ignore, resolve};
use replacer::ReplacerError;

fn s(x: &str) -> String {
    x.to_string()
}

fn pair(a: &str, b: &str) -> (String, String) {
    (a.to_string(), b.to_string())
}

#[test]
fn test_parse_pair() {
    assert!(parse_pair("invalid").is_err());
}

#[test]
fn parse_pair_splits_at_first_eq_and_trims() {
    let (k, v) = parse_pair(" foo = bar ").unwrap();
    assert_eq!(k, "foo");
    assert_eq!(v, "bar");

    let (k, v) = parse_pair("a=b=c").unwrap();
    assert_eq!(k, "a");
    assert_eq!(v, "b=c");

    let (k, v) = parse_pair("\t key\t= two words ").unwrap();
    assert_eq!(k, "key");
    assert_eq!(v, "two words");
}

#[test]
fn parse_pair_error_carries_input() {
    match parse_pair("no separator") {
        Err(ReplacerError::InvalidPairFormat(t)) => assert_eq!(t, "no separator"),
        other => panic!("expected InvalidPairFormat, got {:?}", other),
    }
}

#[test]
fn cli_pair_overrides_config_pair() {
    let r = resolve(
        vec![pair("foo", "bar")],
        vec![],
        None,
        &vec![pair("foo", "qux")],
        &vec![],
        &vec![],
        true,
        &s("replacer.config.toml"),
    )
    .unwrap();
    assert_eq!(r.pairs.len(), 1);
    assert_eq!(r.pairs[0], pair("foo", "qux"));
}

#[test]
fn later_config_pair_overrides_earlier() {
    let r = resolve(
        vec![pair("k", "v1"), pair("k", "v2"), pair("other", "x")],
        vec![],
        None,
        &vec![],
        &vec![],
        &vec![],
        true,
        &s("replacer.config.toml"),
    )
    .unwrap();
    let mut pairs = r.pairs.clone();
    pairs.sort();
    assert_eq!(pairs, vec![pair("k", "v2"), pair("other", "x")]);
}

#[test]
fn empty_ruleset_aborts() {
    let r = resolve(
        vec![],
        vec![s("ignored.txt")],
        Some(true),
        &vec![],
        &vec![],
        &vec![],
        true,
        &s("replacer.config.toml"),
    );
    assert!(matches!(r, Err(ReplacerError::EmptyRuleSet)));
}

#[test]
fn no_ignore_strips_literal_entry() {
    let merged = merge_ignore(
        vec![s("keep.txt"), s("drop.txt")],
        &vec![s("drop.txt")],
        &vec![s("drop.txt")],
    );
    assert_eq!(merged, vec![s("keep.txt")]);
}

#[test]
fn no_ignore_is_not_a_glob_negation() {
    // removal strips literal matches only, not entries a pattern would match
    let merged = merge_ignore(vec![s("*.log")], &vec![], &vec![s("file.log")]);
    assert_eq!(merged, vec![s("*.log")]);
}

#[test]
fn no_ignore_file_is_not_skipped() {
    let r = resolve(
        vec![pair("foo", "bar")],
        vec![s("keep.txt"), s("other.txt")],
        None,
        &vec![],
        &vec![],
        &vec![s("keep.txt")],
        true,
        &s("replacer.config.toml"),
    )
    .unwrap();
    let set = compile_ignore(r.ignore).unwrap();
    assert!(!should_skip_file(&set, &s("keep.txt")));
    assert!(should_skip_file(&set, &s("other.txt")));
}

#[test]
fn implicit_entries_are_appended() {
    let v = finalize_ignore(vec![s("a")], &s("replacer.config.toml"));
    assert_eq!(v, vec![s("a"), s("replacer.config.toml"), s(".git")]);

    let v = finalize_ignore(vec![s(".git")], &s("conf.toml"));
    assert_eq!(v, vec![s(".git"), s("conf.toml")]);
}

#[test]
fn config_case_setting_overrides_cli_flag() {
    let r = resolve(
        vec![pair("a", "b")],
        vec![],
        Some(true),
        &vec![],
        &vec![],
        &vec![],
        false,
        &s("c.toml"),
    )
    .unwrap();
    assert!(r.case_sensitive);

    let r = resolve(
        vec![pair("a", "b")],
        vec![],
        None,
        &vec![],
        &vec![],
        &vec![],
        false,
        &s("c.toml"),
    )
    .unwrap();
    assert!(!r.case_sensitive);
}
