//! The rule resolver: merge configuration with command-line overrides into
//! one final rule set.
//!
//! Ignore entries are merged additively (`--ignore`), then every entry that
//! exactly equals a `--no-ignore` value is removed; the removal always happens
//! after all additions. The configuration file's own path is then appended,
//! and `.git` is appended unless already present. Pairs merge last-writer-wins
//! with the command line winning. The configuration's `case_sensitive` field,
//! when present, overrides the command-line flag.

use vstd::prelude::*;
use vstd::string::StringExecFns;
use crate::ignore::{contains_name, names_contain, views, IgnoreSet};
use crate::pairs::{merge_pairs, pair_views, pairs_map, unique_keys, lemma_pairs_map_dom};
use crate::pattern::regex_is_match;
use crate::ReplacerError;

verus! {

/// Whether an ignore entry survives the `--no-ignore` removal.
pub open spec fn not_removed(removed: Seq<Seq<char>>) -> spec_fn(Seq<char>) -> bool {
    |entry: Seq<char>| !names_contain(removed, entry)
}

/// The merged ignore list: configuration entries, then the added entries, with
/// every entry that exactly equals a removed value stripped.
pub open spec fn merged_ignore(
    config: Seq<Seq<char>>,
    added: Seq<Seq<char>>,
    removed: Seq<Seq<char>>,
) -> Seq<Seq<char>> {
    (config + added).filter(not_removed(removed))
}

/// The implicit `.git` ignore entry.
pub open spec fn git_name() -> Seq<char> {
    seq!['.', 'g', 'i', 't']
}

/// An ignore list with the implicit entries appended: the configuration file's
/// own path always, and `.git` unless already present.
pub open spec fn with_implicit_ignores(
    ignore: Seq<Seq<char>>,
    config_path: Seq<char>,
) -> Seq<Seq<char>> {
    let with_config = ignore.push(config_path);
    if names_contain(with_config, git_name()) {
        with_config
    } else {
        with_config.push(git_name())
    }
}

/// The case policy a run resolves to: the configuration's field when present,
/// else the command-line value.
pub open spec fn resolved_case(config_case: Option<bool>, cli_case: bool) -> bool {
    match config_case {
        Some(b) => b,
        None => cli_case,
    }
}

/// One step of the `--no-ignore` removal: extending the merged entries by one
/// keeps it exactly when no removed value equals it.
proof fn lemma_retained_step(entries: Seq<Seq<char>>, removed: Seq<Seq<char>>, i: int)
    requires
        0 <= i < entries.len(),
    ensures
        !names_contain(removed, entries[i]) ==> entries.take(i + 1).filter(not_removed(removed))
            == entries.take(i).filter(not_removed(removed)).push(entries[i]),
        names_contain(removed, entries[i]) ==> entries.take(i + 1).filter(not_removed(removed))
            == entries.take(i).filter(not_removed(removed)),
{
    reveal(Seq::filter);
    assert(entries.take(i + 1).drop_last() =~= entries.take(i));
    assert(entries.take(i + 1).last() == entries[i]);
}

/// Merge the ignore lists: keep the configuration entries, append every added
/// entry, then remove every entry that exactly equals a removed value. Removal
/// strips literal matches only; it is not a pattern negation against globs.
pub fn merge_ignore(config_ignore: Vec<String>, added: &Vec<String>, removed: &Vec<String>) -> (r:
    Vec<String>)
    ensures
        views(r@) == merged_ignore(views(config_ignore@), views(added@), views(removed@)),
{
    let mut all = config_ignore;
    let ghost config_snapshot = all@;
    let mut k: usize = 0;
    while k < added.len()
        invariant
            0 <= k <= added@.len(),
            all@ == config_snapshot + added@.take(k as int),
        decreases added@.len() - k,
    {
        all.push(added[k].clone());
        proof {
            assert(all@ =~= config_snapshot + added@.take(k + 1));
        }
        k = k + 1;
    }
    proof {
        assert(added@.take(added@.len() as int) =~= added@);
        assert(views(all@) =~= views(config_snapshot) + views(added@));
    }
    let ghost entries = views(all@);
    let mut out: Vec<String> = Vec::new();
    let mut i: usize = 0;
    while i < all.len()
        invariant
            entries == views(all@),
            entries.len() == all@.len(),
            0 <= i <= all@.len(),
            views(out@) == entries.take(i as int).filter(not_removed(views(removed@))),
        decreases all@.len() - i,
    {
        let keep = !contains_name(removed, &all[i]);
        proof {
            lemma_retained_step(entries, views(removed@), i as int);
            assert(entries[i as int] == all@[i as int]@);
        }
        if keep {
            let ghost prev = views(out@);
            out.push(all[i].clone());
            proof {
                assert(views(out@) =~= prev.push(entries[i as int]));
            }
        }
        i = i + 1;
    }
    proof {
        assert(entries.take(all@.len() as int) =~= entries);
    }
    out
}

/// Append the implicit ignore entries: the configuration file's own path, and
/// `.git` unless already present.
pub fn finalize_ignore(ignore: Vec<String>, config_path: &String) -> (r: Vec<String>)
    ensures
        views(r@) == with_implicit_ignores(views(ignore@), config_path@),
{
    let ghost initial = views(ignore@);
    let mut v = ignore;
    v.push(config_path.clone());
    proof {
        assert(views(v@) =~= initial.push(config_path@));
    }
    proof {
        reveal_strlit(".git");
    }
    let git = String::from_str(".git");
    proof {
        assert(git@ =~= git_name());
    }
    if !contains_name(&v, &git) {
        let ghost with_config = views(v@);
        v.push(git);
        proof {
            assert(views(v@) =~= with_config.push(git_name()));
        }
    }
    v
}

/// The final merged configuration, ready for compilation: a key-unique pair
/// list, the resolved ignore list, and the run's case policy.
#[derive(Debug)]
pub struct ResolvedConfig {
    pub pairs: Vec<(String, String)>,
    pub ignore: Vec<String>,
    pub case_sensitive: bool,
}

/// Merge the parsed configuration with the command-line overrides.
///
/// Fails with `EmptyRuleSet` exactly when the merged pair mapping is empty —
/// before any file is touched. On success the pair list resolves to the
/// mapping of configuration pairs followed by command-line pairs (command line
/// wins), the ignore list is merged, stripped of `--no-ignore` values and
/// extended with the implicit entries, and the case policy is the
/// configuration's when it says, else the command line's.
pub fn resolve(
    config_pairs: Vec<(String, String)>,
    config_ignore: Vec<String>,
    config_case_sensitive: Option<bool>,
    cli_pairs: &Vec<(String, String)>,
    cli_ignore: &Vec<String>,
    cli_no_ignore: &Vec<String>,
    cli_case_sensitive: bool,
    config_path: &String,
) -> (r: Result<ResolvedConfig, ReplacerError>)
    ensures
        (r is Ok) <==> pairs_map(pair_views(config_pairs@ + cli_pairs@)).dom() != Set::<
            Seq<char>,
        >::empty(),
        r is Err ==> r matches Err(ReplacerError::EmptyRuleSet),
        r is Ok ==> {
            let resolved = r.unwrap();
            &&& unique_keys(pair_views(resolved.pairs@))
            &&& pairs_map(pair_views(resolved.pairs@)) == pairs_map(
                pair_views(config_pairs@ + cli_pairs@),
            )
            &&& views(resolved.ignore@) == with_implicit_ignores(
                merged_ignore(views(config_ignore@), views(cli_ignore@), views(cli_no_ignore@)),
                config_path@,
            )
            &&& resolved.case_sensitive == resolved_case(config_case_sensitive, cli_case_sensitive)
        },
{
    let ignore = merge_ignore(config_ignore, cli_ignore, cli_no_ignore);
    let pairs = merge_pairs(config_pairs, cli_pairs);
    if pairs.len() == 0 {
        proof {
            assert(pair_views(pairs@) =~= Seq::<(Seq<char>, Seq<char>)>::empty());
            assert(pairs_map(pair_views(config_pairs@ + cli_pairs@)).dom() =~= Set::<
                Seq<char>,
            >::empty());
        }
        return Err(ReplacerError::EmptyRuleSet);
    }
    proof {
        lemma_pairs_map_dom(pair_views(pairs@), pair_views(pairs@)[0].0);
        assert(pairs_map(pair_views(config_pairs@ + cli_pairs@)).dom().contains(
            pair_views(pairs@)[0].0,
        ));
        assert(!Set::<Seq<char>>::empty().contains(pair_views(pairs@)[0].0));
    }
    let ignore = finalize_ignore(ignore, config_path);
    let case_sensitive = match config_case_sensitive {
        Some(b) => b,
        None => cli_case_sensitive,
    };
    Ok(ResolvedConfig { pairs, ignore, case_sensitive })
}

/// A `--no-ignore` value wins over an ignore entry of the same literal string:
/// a name given as removed does not stand in the resolved ignore list (unless
/// it is the configuration file's own path or the implicit `.git` entry).
pub proof fn lemma_no_ignore_precedence(
    config: Seq<Seq<char>>,
    added: Seq<Seq<char>>,
    removed: Seq<Seq<char>>,
    config_path: Seq<char>,
    name: Seq<char>,
)
    requires
        names_contain(removed, name),
        name != config_path,
        name != git_name(),
    ensures
        !names_contain(
            with_implicit_ignores(merged_ignore(config, added, removed), config_path),
            name,
        ),
{
    broadcast use vstd::seq_lib::group_filter_ensures;

    let merged = merged_ignore(config, added, removed);
    let full = with_implicit_ignores(merged, config_path);
    assert forall|i: int| 0 <= i < full.len() implies full[i] != name by {
        if i < merged.len() {
            assert(merged[i] == (config + added).filter(not_removed(removed))[i]);
            assert(not_removed(removed)(merged[i]));
        }
    }
}

/// An ignore entry that no `--no-ignore` value equals survives the merge: a
/// base name listed in the configuration's ignore entries or added with
/// `--ignore`, and not removed, is skipped by the compiled set.
pub proof fn lemma_ignored_entry_skipped(
    set: IgnoreSet,
    config: Seq<Seq<char>>,
    added: Seq<Seq<char>>,
    removed: Seq<Seq<char>>,
    config_path: Seq<char>,
    name: Seq<char>,
)
    requires
        set.names_views() == with_implicit_ignores(
            merged_ignore(config, added, removed),
            config_path,
        ),
        names_contain(config + added, name),
        !names_contain(removed, name),
    ensures
        set.skips(name),
{
    broadcast use vstd::seq_lib::group_filter_ensures;

    let all = config + added;
    let merged = merged_ignore(config, added, removed);
    let i = choose|i: int| 0 <= i < all.len() && all[i] == name;
    assert(not_removed(removed)(all[i]));
    assert(all.filter(not_removed(removed)).contains(all[i]));
    let j = choose|j: int| 0 <= j < merged.len() && merged[j] == name;
    assert(set.names_views()[j] == name);
}

/// A file name given as a `--no-ignore` value is not skipped on its name:
/// with the resolved ignore list, a base name that equals a removed value
/// (and is neither the configuration file's path nor `.git`, and that no
/// ignore glob matches) passes the ignore check.
pub proof fn lemma_no_ignore_not_skipped(
    set: IgnoreSet,
    config: Seq<Seq<char>>,
    added: Seq<Seq<char>>,
    removed: Seq<Seq<char>>,
    config_path: Seq<char>,
    name: Seq<char>,
)
    requires
        set.names_views() == with_implicit_ignores(
            merged_ignore(config, added, removed),
            config_path,
        ),
        names_contain(removed, name),
        name != config_path,
        name != git_name(),
        forall|i: int|
            0 <= i < set.glob_sources().len() ==> !regex_is_match(
                #[trigger] set.glob_sources()[i],
                name,
            ),
    ensures
        !set.skips(name),
{
    lemma_no_ignore_precedence(config, added, removed, config_path, name);
}

} // verus!
