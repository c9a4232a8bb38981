use replacer::engine::process_content;
use replacer::pattern::compile_rules;

fn s(x: &str) -> String {
    x.to_string()
}

#[test]
fn rules_chain_on_cumulative_output() {
    let rules = compile_rules(&vec![(s("foo"), s("bar")), (s("bar"), s("baz"))], true).unwrap();
    let (out, changed) = process_content(&rules, &s("foo"));
    assert_eq!(out, "baz");
    assert!(changed);
}

#[test]
fn case_insensitive_rule_replaces_every_spelling() {
    let rules = compile_rules(&vec![(s("hello"), s("world"))], false).unwrap();
    let (out, changed) = process_content(&rules, &s("Hello, HELLO, hello"));
    assert_eq!(out, "world, world, world");
    assert!(changed);
}

#[test]
fn case_sensitive_rule_leaves_other_spellings() {
    let rules = compile_rules(&vec![(s("hello"), s("world"))], true).unwrap();
    let (out, changed) = process_content(&rules, &s("Hello, HELLO, hello"));
    assert_eq!(out, "Hello, HELLO, world");
    assert!(changed);
}

#[test]
fn second_run_reports_no_change() {
    let rules = compile_rules(&vec![(s("foo"), s("bar"))], true).unwrap();
    let (first, first_changed) = process_content(&rules, &s("foo and foo"));
    assert_eq!(first, "bar and bar");
    assert!(first_changed);
    let (second, second_changed) = process_content(&rules, &first);
    assert_eq!(second, first);
    assert!(!second_changed);
}

#[test]
fn untouched_text_reports_no_change() {
    let rules = compile_rules(&vec![(s("absent"), s("x"))], true).unwrap();
    let (out, changed) = process_content(&rules, &s("some text"));
    assert_eq!(out, "some text");
    assert!(!changed);
}

#[test]
fn empty_rule_list_changes_nothing() {
    let rules = compile_rules(&vec![], true).unwrap();
    let (out, changed) = process_content(&rules, &s("anything"));
    assert_eq!(out, "anything");
    assert!(!changed);
}
