//! Replacement pairs: parsing `key=value` arguments and merging
//! configuration pairs with command-line pairs.
//!
//! Pairs are keyed by their `from` string. The merge is last-writer-wins:
//! configuration pairs are taken in file order, then command-line pairs in the
//! order given overwrite or extend them. The resulting order is deterministic
//! within a run but otherwise unspecified.

use vstd::prelude::*;
use vstd::string::{StrSliceExecFns, StringExecFns};
use crate::ReplacerError;

verus! {

/// Whether a character counts as whitespace, as `char::is_whitespace` decides
/// it (Unicode `White_Space`).
pub uninterp spec fn char_is_whitespace(c: char) -> bool;

/// Relies on `char::is_whitespace`: true exactly for characters with the
/// Unicode `White_Space` property.
#[verifier::external_body]
fn is_ws(c: char) -> (r: bool)
    ensures
        r == char_is_whitespace(c),
{
    c.is_whitespace()
}

/// A string with its leading whitespace removed.
pub open spec fn trim_start(s: Seq<char>) -> Seq<char>
    decreases s.len(),
{
    if s.len() > 0 && char_is_whitespace(s[0]) {
        trim_start(s.drop_first())
    } else {
        s
    }
}

/// A string with its trailing whitespace removed.
pub open spec fn trim_end(s: Seq<char>) -> Seq<char>
    decreases s.len(),
{
    if s.len() > 0 && char_is_whitespace(s.last()) {
        trim_end(s.drop_last())
    } else {
        s
    }
}

/// A string with both leading and trailing whitespace removed, as `str::trim`
/// returns it.
pub open spec fn spec_trim(s: Seq<char>) -> Seq<char> {
    trim_end(trim_start(s))
}

/// Remove leading and trailing whitespace.
fn trimmed(s: &str) -> (r: String)
    ensures
        r@ == spec_trim(s@),
{
    let n: usize = s.unicode_len();
    let mut start: usize = 0;
    proof {
        assert(s@.skip(0) =~= s@);
    }
    loop
        invariant
            n == s@.len(),
            0 <= start <= n,
            trim_start(s@) == trim_start(s@.skip(start as int)),
        ensures
            0 <= start <= n,
            trim_start(s@) == s@.skip(start as int),
        decreases n - start,
    {
        if start >= n {
            proof {
                assert(s@.skip(start as int) =~= Seq::<char>::empty());
            }
            break;
        }
        let c = s.get_char(start);
        if !is_ws(c) {
            proof {
                assert(s@.skip(start as int)[0] == s@[start as int]);
            }
            break;
        }
        proof {
            assert(s@.skip(start as int)[0] == s@[start as int]);
            assert(s@.skip(start as int).drop_first() =~= s@.skip(start as int + 1));
        }
        start = start + 1;
    }
    let ghost t = s@.skip(start as int);
    let mut end: usize = n;
    proof {
        assert(t.take(n - start) =~= t);
    }
    loop
        invariant
            n == s@.len(),
            t == s@.skip(start as int),
            start <= end <= n,
            trim_end(t) == trim_end(t.take(end - start)),
        ensures
            start <= end <= n,
            trim_end(t) == t.take(end - start),
        decreases end - start,
    {
        if end <= start {
            proof {
                assert(t.take(end - start) =~= Seq::<char>::empty());
            }
            break;
        }
        let c = s.get_char(end - 1);
        proof {
            assert(t.take(end - start).last() == s@[end - 1]);
        }
        if !is_ws(c) {
            break;
        }
        proof {
            assert(t.take(end - start).drop_last() =~= t.take(end - 1 - start));
        }
        end = end - 1;
    }
    let r = s.substring_char(start, end);
    proof {
        assert(s@.subrange(start as int, end as int) =~= t.take(end - start));
    }
    r.to_owned()
}

/// Whether a `key=value` argument holds a separator at all.
pub open spec fn has_eq(s: Seq<char>) -> bool {
    exists|i: int| 0 <= i < s.len() && s[i] == '='
}

/// Parse a `key=value` replacement-pair argument: split at the first `=` and
/// trim whitespace from both sides. An argument without `=` is rejected.
pub fn parse_pair(s: &str) -> (r: Result<(String, String), ReplacerError>)
    ensures
        (r is Ok) <==> has_eq(s@),
        r is Ok ==> exists|i: int|
            {
                &&& 0 <= i < s@.len()
                &&& s@[i] == '='
                &&& forall|j: int| 0 <= j < i ==> s@[j] != '='
                &&& r.unwrap().0@ == spec_trim(s@.take(i))
                &&& r.unwrap().1@ == spec_trim(s@.skip(i + 1))
            },
        r is Err ==> (r matches Err(ReplacerError::InvalidPairFormat(t)) && t@ == s@),
{
    let n: usize = s.unicode_len();
    let mut i: usize = 0;
    while i < n
        invariant
            n == s@.len(),
            0 <= i <= n,
            forall|j: int| 0 <= j < i ==> s@[j] != '=',
        decreases n - i,
    {
        if s.get_char(i) == '=' {
            let left = trimmed(s.substring_char(0, i));
            let right = trimmed(s.substring_char(i + 1, n));
            proof {
                assert(s@.subrange(0, i as int) =~= s@.take(i as int));
                assert(s@.subrange(i + 1, n as int) =~= s@.skip(i + 1));
            }
            return Ok((left, right));
        }
        i = i + 1;
    }
    Err(ReplacerError::InvalidPairFormat(s.to_owned()))
}

/// The views of a sequence of string pairs.
pub open spec fn pair_views(pairs: Seq<(String, String)>) -> Seq<(Seq<char>, Seq<char>)> {
    pairs.map_values(|p: (String, String)| (p.0@, p.1@))
}

/// The mapping a sequence of pairs resolves to: later pairs overwrite earlier
/// ones with the same key.
pub open spec fn pairs_map(pairs: Seq<(Seq<char>, Seq<char>)>) -> Map<Seq<char>, Seq<char>>
    decreases pairs.len(),
{
    if pairs.len() == 0 {
        Map::empty()
    } else {
        pairs_map(pairs.drop_last()).insert(pairs.last().0, pairs.last().1)
    }
}

/// No two pairs share a key.
pub open spec fn unique_keys(pairs: Seq<(Seq<char>, Seq<char>)>) -> bool {
    forall|i: int, j: int|
        0 <= i < j < pairs.len() ==> (#[trigger] pairs[i]).0 != (#[trigger] pairs[j]).0
}

/// A key is in the resolved mapping exactly when some pair carries it.
pub proof fn lemma_pairs_map_dom(pairs: Seq<(Seq<char>, Seq<char>)>, key: Seq<char>)
    ensures
        pairs_map(pairs).dom().contains(key) <==> exists|i: int|
            0 <= i < pairs.len() && (#[trigger] pairs[i]).0 == key,
    decreases pairs.len(),
{
    if pairs.len() > 0 {
        lemma_pairs_map_dom(pairs.drop_last(), key);
        if pairs.last().0 == key {
            assert(pairs[pairs.len() - 1].0 == key);
        } else if exists|i: int| 0 <= i < pairs.len() && (#[trigger] pairs[i]).0 == key {
            let i = choose|i: int| 0 <= i < pairs.len() && (#[trigger] pairs[i]).0 == key;
            assert(pairs.drop_last()[i] == pairs[i]);
        }
    }
}

/// The mapping of a concatenation: the later part wins wherever the keys
/// overlap.
pub proof fn lemma_pairs_map_concat(
    first: Seq<(Seq<char>, Seq<char>)>,
    second: Seq<(Seq<char>, Seq<char>)>,
)
    ensures
        pairs_map(first + second) == pairs_map(first).union_prefer_right(pairs_map(second)),
    decreases second.len(),
{
    if second.len() == 0 {
        assert(first + second =~= first);
        assert(pairs_map(first).union_prefer_right(pairs_map(second)) =~= pairs_map(first));
    } else {
        lemma_pairs_map_concat(first, second.drop_last());
        assert((first + second).drop_last() =~= first + second.drop_last());
        assert((first + second).last() == second.last());
        assert(pairs_map(first).union_prefer_right(pairs_map(second)) =~= pairs_map(
            first,
        ).union_prefer_right(pairs_map(second.drop_last())).insert(
            second.last().0,
            second.last().1,
        ));
    }
}

/// A command-line pair overrides a configuration pair with the same key: in
/// the mapping the two merge to, every key that the command-line pairs carry
/// resolves to its command-line value, and a key they do not carry keeps its
/// configuration value.
pub proof fn lemma_pair_override(
    config: Seq<(Seq<char>, Seq<char>)>,
    cli: Seq<(Seq<char>, Seq<char>)>,
    key: Seq<char>,
)
    ensures
        pairs_map(cli).dom().contains(key) ==> pairs_map(config + cli).dom().contains(key)
            && pairs_map(config + cli)[key] == pairs_map(cli)[key],
        !pairs_map(cli).dom().contains(key) ==> (pairs_map(config + cli).dom().contains(key)
            <==> pairs_map(config).dom().contains(key)),
        !pairs_map(cli).dom().contains(key) && pairs_map(config).dom().contains(key)
            ==> pairs_map(config + cli)[key] == pairs_map(config)[key],
{
    lemma_pairs_map_concat(config, cli);
}

/// Test whether any pair of the list carries the given key.
fn contains_key(pairs: &Vec<(String, String)>, key: &String) -> (r: bool)
    ensures
        r == exists|i: int|
            0 <= i < pairs@.len() && (#[trigger] pair_views(pairs@)[i]).0 == key@,
{
    let mut i: usize = 0;
    while i < pairs.len()
        invariant
            0 <= i <= pairs@.len(),
            forall|j: int| 0 <= j < i ==> (#[trigger] pair_views(pairs@)[j]).0 != key@,
        decreases pairs@.len() - i,
    {
        let same = pairs[i].0.eq(key);
        proof {
            assert(pair_views(pairs@)[i as int].0 == pairs@[i as int].0@);
        }
        if same {
            return true;
        }
        i = i + 1;
    }
    false
}

/// Merge configuration pairs with command-line pairs into one key-unique rule
/// list: a command-line pair overwrites a configuration pair with the same
/// key, and within each source later pairs overwrite earlier ones.
///
/// The mapping of the result is exactly the mapping of the concatenation
/// `configuration then command line`; the order of the returned pairs is
/// deterministic but otherwise unspecified.
pub fn merge_pairs(config_pairs: Vec<(String, String)>, cli_pairs: &Vec<(String, String)>) -> (r:
    Vec<(String, String)>)
    ensures
        unique_keys(pair_views(r@)),
        pairs_map(pair_views(r@)) == pairs_map(pair_views(config_pairs@ + cli_pairs@)),
{
    let mut all = config_pairs;
    let ghost config_snapshot = all@;
    let mut k: usize = 0;
    while k < cli_pairs.len()
        invariant
            0 <= k <= cli_pairs@.len(),
            all@ == config_snapshot + cli_pairs@.take(k as int),
        decreases cli_pairs@.len() - k,
    {
        all.push((cli_pairs[k].0.clone(), cli_pairs[k].1.clone()));
        proof {
            assert(all@ =~= config_snapshot + cli_pairs@.take(k + 1));
        }
        k = k + 1;
    }
    proof {
        assert(cli_pairs@.take(cli_pairs@.len() as int) =~= cli_pairs@);
        assert(all@ == config_snapshot + cli_pairs@);
    }
    let ghost av = pair_views(all@);
    let mut out: Vec<(String, String)> = Vec::new();
    let mut idx: usize = all.len();
    while idx > 0
        invariant
            av == pair_views(all@),
            av.len() == all@.len(),
            0 <= idx <= all@.len(),
            unique_keys(pair_views(out@)),
            pairs_map(pair_views(out@)) == pairs_map(av.skip(idx as int)),
        decreases idx,
    {
        idx = idx - 1;
        let present = contains_key(&out, &all[idx].0);
        proof {
            lemma_pairs_map_dom(pair_views(out@), av[idx as int].0);
            assert(av.skip(idx as int) =~= seq![av[idx as int]] + av.skip(idx + 1));
            lemma_pairs_map_concat(seq![av[idx as int]], av.skip(idx + 1));
            reveal_with_fuel(pairs_map, 2);
            assert(seq![av[idx as int]].drop_last() =~= Seq::<(Seq<char>, Seq<char>)>::empty());
            assert(seq![av[idx as int]].last() == av[idx as int]);
            assert(pairs_map(seq![av[idx as int]]) =~= Map::<Seq<char>, Seq<char>>::empty().insert(
                av[idx as int].0,
                av[idx as int].1,
            ));
            assert(av[idx as int].0 == all@[idx as int].0@);
        }
        if !present {
            let ghost prev = pair_views(out@);
            out.push((all[idx].0.clone(), all[idx].1.clone()));
            proof {
                assert(pair_views(out@) =~= prev.push(av[idx as int]));
                assert(prev.push(av[idx as int]).drop_last() =~= prev);
                assert(prev.push(av[idx as int]).last() == av[idx as int]);
                assert(pairs_map(pair_views(out@)) == pairs_map(prev).insert(
                    av[idx as int].0,
                    av[idx as int].1,
                ));
                assert(pairs_map(pair_views(out@)) =~= pairs_map(av.skip(idx as int)));
            }
        } else {
            proof {
                assert(pairs_map(av.skip(idx as int)) =~= pairs_map(av.skip(idx + 1)));
            }
        }
    }
    proof {
        assert(av.skip(0) =~= av);
        assert(pair_views(config_pairs@ + cli_pairs@) == av);
    }
    out
}

} // verus!
