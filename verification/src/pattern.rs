//! Compiled replacement patterns.
//!
//! Matching and substitution are done by the `regex` crate. A compiled
//! `regex::Regex` is opaque here; what it matches and what `replace_all`
//! returns are named results (`regex_is_match`, `regex_replace`), functions of
//! the pattern source and the inputs alone, since `Regex::new` with its
//! default configuration is deterministic.

use vstd::prelude::*;
use vstd::string::StringExecFns;
use crate::ReplacerError;

verus! {

#[verifier::external_type_specification]
#[verifier::external_body]
pub struct ExRegex(regex::Regex);

/// Whether `regex::Regex::new` accepts a pattern source.
pub uninterp spec fn regex_compiles(pattern: Seq<char>) -> bool;

/// The pattern source a compiled regex stands for: for a regex built by
/// `regex::Regex::new` it is the pattern given, the string
/// `regex::Regex::as_str` returns.
pub uninterp spec fn regex_source(re: regex::Regex) -> Seq<char>;

/// Whether a pattern matches anywhere in a haystack, as
/// `regex::Regex::is_match` reports it.
pub uninterp spec fn regex_is_match(pattern: Seq<char>, haystack: Seq<char>) -> bool;

/// The text `regex::Regex::replace_all` produces: every non-overlapping match
/// of the pattern in the haystack replaced, leftmost-first, with the
/// replacement (in which `$` references are expanded).
pub uninterp spec fn regex_replace(
    pattern: Seq<char>,
    haystack: Seq<char>,
    replacement: Seq<char>,
) -> Seq<char>;

/// Relies on `regex::Regex::new`: compiles the pattern, returning `Ok` exactly
/// when the pattern is valid (and within the default size limit), and on
/// `regex::Regex::as_str`: the compiled regex keeps its pattern source.
#[verifier::external_body]
pub(crate) fn regex_new(pattern: &str) -> (r: Option<regex::Regex>)
    ensures
        r is Some <==> regex_compiles(pattern@),
        r is Some ==> regex_source(r.unwrap()) == pattern@,
{
    match regex::Regex::new(pattern) {
        Ok(re) => Some(re),
        Err(_) => None,
    }
}

/// Relies on `regex::Regex::is_match`: true if and only if the regex matches
/// anywhere in the haystack.
#[verifier::external_body]
pub(crate) fn regex_match(re: &regex::Regex, haystack: &str) -> (r: bool)
    ensures
        r == regex_is_match(regex_source(*re), haystack@),
{
    re.is_match(haystack)
}

/// Relies on `regex::Regex::replace_all`: replaces all non-overlapping
/// matches; if no match is found, the haystack is returned unchanged.
#[verifier::external_body]
pub(crate) fn regex_substitute(re: &regex::Regex, haystack: &str, replacement: &str) -> (r: String)
    ensures
        r@ == regex_replace(regex_source(*re), haystack@, replacement@),
        !regex_is_match(regex_source(*re), haystack@) ==> r@ == haystack@,
{
    re.replace_all(haystack, replacement).into_owned()
}

/// One replacement rule: a compiled pattern and its substitution text.
#[derive(Debug)]
pub struct Replacement {
    pub from: regex::Regex,
    pub to: String,
}

/// A rule as the specifications see it: its pattern source and its
/// substitution text.
pub open spec fn rule_view(r: Replacement) -> (Seq<char>, Seq<char>) {
    (regex_source(r.from), r.to@)
}

pub open spec fn rule_views(rules: Seq<Replacement>) -> Seq<(Seq<char>, Seq<char>)> {
    rules.map_values(|r: Replacement| rule_view(r))
}

/// The case-insensitive mode marker prefixed to every pattern when the run is
/// case-insensitive.
pub open spec fn case_marker() -> Seq<char> {
    seq!['(', '?', 'i', ')']
}

/// The pattern source a replacement key is compiled from under the run's case
/// policy.
pub open spec fn rule_pattern(from: Seq<char>, case_sensitive: bool) -> Seq<char> {
    if case_sensitive {
        from
    } else {
        case_marker() + from
    }
}

/// Apply the run's case policy to one replacement key.
fn case_pattern(from: &String, case_sensitive: bool) -> (r: String)
    ensures
        r@ == rule_pattern(from@, case_sensitive),
{
    if case_sensitive {
        from.clone()
    } else {
        proof {
            reveal_strlit("(?i)");
        }
        let mut s = String::from_str("(?i)");
        s.append(from.as_str());
        proof {
            assert(s@ =~= case_marker() + from@);
        }
        s
    }
}

/// Compile every replacement pair under the given case policy, in order.
///
/// Succeeds exactly when every derived pattern compiles; otherwise reports the
/// first pattern source that does not, and no file is ever touched.
pub fn compile_rules(pairs: &Vec<(String, String)>, case_sensitive: bool) -> (r: Result<
    Vec<Replacement>,
    ReplacerError,
>)
    ensures
        (r is Ok) <==> (forall|i: int|
            0 <= i < pairs@.len() ==> regex_compiles(
                rule_pattern(#[trigger] pairs@[i].0@, case_sensitive),
            )),
        r is Ok ==> {
            let rules = rule_views(r.unwrap()@);
            &&& rules.len() == pairs@.len()
            &&& forall|i: int|
                0 <= i < pairs@.len() ==> #[trigger] rules[i] == (
                rule_pattern(pairs@[i].0@, case_sensitive),
                pairs@[i].1@,
            )
        },
        r is Err ==> (r matches Err(ReplacerError::InvalidPattern(s)) && exists|i: int|
            {
                &&& 0 <= i < pairs@.len()
                &&& !regex_compiles(rule_pattern(#[trigger] pairs@[i].0@, case_sensitive))
                &&& forall|j: int|
                    0 <= j < i ==> regex_compiles(
                        rule_pattern(#[trigger] pairs@[j].0@, case_sensitive),
                    )
                &&& s@ == rule_pattern(pairs@[i].0@, case_sensitive)
            }),
{
    let mut rules: Vec<Replacement> = Vec::new();
    let mut idx: usize = 0;
    while idx < pairs.len()
        invariant
            0 <= idx <= pairs@.len(),
            rules@.len() == idx,
            forall|j: int|
                0 <= j < idx ==> regex_compiles(
                    rule_pattern(#[trigger] pairs@[j].0@, case_sensitive),
                ),
            forall|j: int|
                0 <= j < idx ==> #[trigger] rule_views(rules@)[j] == (
                rule_pattern(pairs@[j].0@, case_sensitive),
                pairs@[j].1@,
            ),
        decreases pairs@.len() - idx,
    {
        let pattern = case_pattern(&pairs[idx].0, case_sensitive);
        match regex_new(pattern.as_str()) {
            Some(re) => {
                let ghost prev = rules@;
                rules.push(Replacement { from: re, to: pairs[idx].1.clone() });
                proof {
                    assert(forall|j: int|
                        0 <= j < idx ==> #[trigger] rule_views(rules@)[j] == rule_views(prev)[j]);
                    assert(rule_views(rules@)[idx as int] == (
                        rule_pattern(pairs@[idx as int].0@, case_sensitive),
                        pairs@[idx as int].1@,
                    ));
                }
            },
            None => {
                return Err(ReplacerError::InvalidPattern(pattern));
            },
        }
        idx = idx + 1;
    }
    Ok(rules)
}

} // verus!
