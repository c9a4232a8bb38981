use regex::Regex;
use replacer::glob::glob_to_regex;
use replacer::ignore::{compile_ignore, should_prune_dir, should_skip_file};
use replacer::pattern::{compile_rules, Replacement};
use replacer::ReplacerError;

fn s(x: &str) -> String {
    x.to_string()
}

#[test]
fn test_glob_to_regex() {
    assert_eq!(glob_to_regex("*.txt"), "^.*\\.txt$");
    assert_eq!(glob_to_regex("file?.log"), "^file.\\.log$");
    assert_eq!(glob_to_regex("data.*"), "^data\\..*$");
}

#[test]
fn test_replacement() {
    let replacement = Replacement {
        from: Regex::new("(?i)hello").unwrap(),
        to: "world".to_string(),
    };
    let text = "Hello, HELLO, hello";
    let result = replacement.from.replace_all(text, &replacement.to);
    assert_eq!(result, "world, world, world");
}

#[test]
fn test_ignore_patterns() {
    let ignore_patterns = vec![
        Regex::new(&glob_to_regex("*.log")).unwrap(),
        Regex::new(&glob_to_regex("temp*")).unwrap(),
    ];
    assert!(ignore_patterns[0].is_match("file.log"));
    assert!(!ignore_patterns[0].is_match("file.txt"));
    assert!(ignore_patterns[1].is_match("temp_file"));
    assert!(!ignore_patterns[1].is_match("file_temp"));
}

#[test]
fn glob_matches_whole_name_only() {
    let set = compile_ignore(vec![s("*.txt"), s("file?.log"), s("data.*")]).unwrap();

    assert!(should_skip_file(&set, &s("report.txt")));
    assert!(should_skip_file(&set, &s("a.txt")));
    assert!(!should_skip_file(&set, &s("report.txtx")));

    assert!(should_skip_file(&set, &s("file1.log")));
    assert!(!should_skip_file(&set, &s("file12.log")));
    assert!(!should_skip_file(&set, &s("file.log")));

    assert!(should_skip_file(&set, &s("data.csv")));
    assert!(should_skip_file(&set, &s("data.")));
    assert!(!should_skip_file(&set, &s("database")));
}

#[test]
fn glob_matching_is_case_sensitive() {
    let set = compile_ignore(vec![s("*.LOG")]).unwrap();
    assert!(!should_skip_file(&set, &s("file.log")));
    assert!(should_skip_file(&set, &s("file.LOG")));
}

#[test]
fn exact_entries_skip_files_and_prune_dirs() {
    let set = compile_ignore(vec![s(".git"), s("*.log")]).unwrap();
    assert!(should_skip_file(&set, &s(".git")));
    assert!(should_prune_dir(&set, &s(".git")));
    // directory pruning consults exact names only, never globs
    assert!(!should_prune_dir(&set, &s("build.log")));
    assert!(should_skip_file(&set, &s("build.log")));
}

#[test]
fn invalid_replacement_pattern_is_reported() {
    let r = compile_rules(&vec![(s("("), s("x"))], true);
    match r {
        Err(ReplacerError::InvalidPattern(p)) => assert_eq!(p, "("),
        other => panic!("expected InvalidPattern, got {:?}", other),
    }
    // the case marker is part of the offending source
    let r = compile_rules(&vec![(s("("), s("x"))], false);
    match r {
        Err(ReplacerError::InvalidPattern(p)) => assert_eq!(p, "(?i)("),
        other => panic!("expected InvalidPattern, got {:?}", other),
    }
}

#[test]
fn invalid_ignore_glob_is_reported() {
    let r = compile_ignore(vec![s("*(")]);
    match r {
        Err(ReplacerError::InvalidPattern(p)) => assert_eq!(p, "*("),
        other => panic!("expected InvalidPattern, got {:?}", other),
    }
}

#[test]
fn compiled_rules_keep_order_and_case_marker() {
    let rules = compile_rules(&vec![(s("foo"), s("bar")), (s("bar"), s("baz"))], true).unwrap();
    assert_eq!(rules.len(), 2);
    assert_eq!(rules[0].from.as_str(), "foo");
    assert_eq!(rules[0].to, "bar");
    assert_eq!(rules[1].from.as_str(), "bar");

    let rules = compile_rules(&vec![(s("hello"), s("world"))], false).unwrap();
    assert_eq!(rules[0].from.as_str(), "(?i)hello");
}
