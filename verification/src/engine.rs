//! The applier: run every replacement rule, in order, over a file's content.
//!
//! Rule N sees the output of rule N−1: each rule rewrites the cumulative
//! result of the rules before it, not the original text.

use vstd::prelude::*;
use crate::pattern::{regex_replace, regex_substitute, rule_view, rule_views, Replacement};

verus! {

/// The text that applying a sequence of rules (each a pattern source and a
/// substitution text) in order produces.
pub open spec fn apply_rules(rules: Seq<(Seq<char>, Seq<char>)>, text: Seq<char>) -> Seq<char>
    decreases rules.len(),
{
    if rules.len() == 0 {
        text
    } else {
        regex_replace(rules.last().0, apply_rules(rules.drop_last(), text), rules.last().1)
    }
}

/// Rules chain: applying one rule sequence after another is applying their
/// concatenation, so each rule works on the cumulative output of all the
/// rules before it.
pub proof fn lemma_apply_rules_append(
    first: Seq<(Seq<char>, Seq<char>)>,
    second: Seq<(Seq<char>, Seq<char>)>,
    text: Seq<char>,
)
    ensures
        apply_rules(first + second, text) == apply_rules(second, apply_rules(first, text)),
    decreases second.len(),
{
    if second.len() == 0 {
        assert(first + second =~= first);
    } else {
        lemma_apply_rules_append(first, second.drop_last(), text);
        assert((first + second).drop_last() =~= first + second.drop_last());
        assert((first + second).last() == second.last());
    }
}

/// A run that changes nothing, repeated, changes nothing: when applying the
/// rules leaves a text as it was, applying them to the result again leaves it
/// as it was too.
pub proof fn lemma_noop_stable(rules: Seq<(Seq<char>, Seq<char>)>, text: Seq<char>)
    requires
        apply_rules(rules, text) == text,
    ensures
        apply_rules(rules, apply_rules(rules, text)) == apply_rules(rules, text),
{
}

/// Apply every rule in order to the text, each rule replacing all
/// non-overlapping matches of its pattern in the cumulative result so far.
pub fn apply_replacements(rules: &Vec<Replacement>, text: &String) -> (r: String)
    ensures
        r@ == apply_rules(rule_views(rules@), text@),
{
    let ghost rv = rule_views(rules@);
    let mut current = text.clone();
    let mut idx: usize = 0;
    while idx < rules.len()
        invariant
            rv == rule_views(rules@),
            rv.len() == rules@.len(),
            0 <= idx <= rules@.len(),
            current@ == apply_rules(rv.take(idx as int), text@),
        decreases rules@.len() - idx,
    {
        let next = regex_substitute(&rules[idx].from, current.as_str(), rules[idx].to.as_str());
        proof {
            assert(rv.take(idx + 1).drop_last() =~= rv.take(idx as int));
            assert(rv.take(idx + 1).last() == rule_view(rules@[idx as int]));
        }
        current = next;
        idx = idx + 1;
    }
    proof {
        assert(rv.take(rules@.len() as int) =~= rv);
    }
    current
}

/// Apply every rule to a file's content and detect whether it changed.
///
/// Returns the rewritten content together with the change flag: true exactly
/// when the result differs from the original text (the `Replaced` outcome;
/// false is `NoChange`, and the content is written back either way).
pub fn process_content(rules: &Vec<Replacement>, text: &String) -> (r: (String, bool))
    ensures
        r.0@ == apply_rules(rule_views(rules@), text@),
        r.1 == (r.0@ != text@),
{
    let new_text = apply_replacements(rules, text);
    let changed = !(new_text == *text);
    (new_text, changed)
}

} // verus!
