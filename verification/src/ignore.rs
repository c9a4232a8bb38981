//! The ignore set: exact name entries and glob-derived matchers.
//!
//! An entry that contains a wildcard character (`*` or `?`) is additionally
//! compiled, through the glob translation, into an anchored regex; entries
//! without wildcards are matched as plain strings only. A path is skipped when
//! its base name exactly equals any entry or matches any compiled glob;
//! directories are pruned on exact-name entries alone. Glob matching is always
//! case-sensitive, whatever the replacement case policy.

use vstd::prelude::*;
use vstd::string::StrSliceExecFns;
use crate::glob::{glob_regex, glob_to_regex};
use crate::pattern::{regex_is_match, regex_match, regex_new, regex_source};
use crate::ReplacerError;

verus! {

/// The views of a sequence of strings.
pub open spec fn views(strings: Seq<String>) -> Seq<Seq<char>> {
    strings.map_values(|s: String| s@)
}

/// Whether a sequence of names contains the given name.
pub open spec fn names_contain(names: Seq<Seq<char>>, name: Seq<char>) -> bool {
    exists|i: int| 0 <= i < names.len() && names[i] == name
}

/// Whether an ignore entry holds a wildcard character, so that it is treated
/// as a glob.
pub open spec fn has_wildcard(entry: Seq<char>) -> bool {
    exists|i: int| 0 <= i < entry.len() && (entry[i] == '*' || entry[i] == '?')
}

/// The glob entries of an ignore list: those entries that hold a wildcard, in
/// order.
pub open spec fn glob_entries(entries: Seq<Seq<char>>) -> Seq<Seq<char>> {
    entries.filter(|e: Seq<char>| has_wildcard(e))
}

/// Test a string for a wildcard character.
pub fn contains_wildcard(entry: &String) -> (r: bool)
    ensures
        r == has_wildcard(entry@),
{
    let n: usize = entry.as_str().unicode_len();
    let mut i: usize = 0;
    while i < n
        invariant
            n == entry@.len(),
            0 <= i <= n,
            forall|j: int| 0 <= j < i ==> !(entry@[j] == '*' || entry@[j] == '?'),
        decreases n - i,
    {
        let c = entry.as_str().get_char(i);
        if c == '*' || c == '?' {
            proof {
                assert(entry@[i as int] == '*' || entry@[i as int] == '?');
            }
            return true;
        }
        i = i + 1;
    }
    false
}

/// Test whether any string of the list equals the given one.
pub fn contains_name(names: &Vec<String>, name: &String) -> (r: bool)
    ensures
        r == names_contain(views(names@), name@),
{
    let mut i: usize = 0;
    while i < names.len()
        invariant
            0 <= i <= names@.len(),
            forall|j: int| 0 <= j < i ==> views(names@)[j] != name@,
        decreases names@.len() - i,
    {
        let same = names[i].eq(name);
        proof {
            assert(views(names@)[i as int] == names@[i as int]@);
        }
        if same {
            return true;
        }
        i = i + 1;
    }
    false
}

/// The compiled exclusion rules: every entry as an exact name, and each
/// wildcard entry also as a compiled anchored regex.
#[derive(Debug)]
pub struct IgnoreSet {
    pub names: Vec<String>,
    pub globs: Vec<regex::Regex>,
}

impl IgnoreSet {
    /// The exact-name entries.
    pub open spec fn names_views(self) -> Seq<Seq<char>> {
        views(self.names@)
    }

    /// The pattern sources of the compiled glob matchers.
    pub open spec fn glob_sources(self) -> Seq<Seq<char>> {
        self.globs@.map_values(|re: regex::Regex| regex_source(re))
    }

    /// A well-formed set's glob matchers are exactly the translations of its
    /// wildcard entries, in order.
    pub open spec fn wf(self) -> bool {
        self.glob_sources() == glob_entries(self.names_views()).map_values(
            |e: Seq<char>| glob_regex(e),
        )
    }

    /// Whether a file of this base name is excluded: the name equals an entry
    /// exactly, or some compiled glob matches it.
    pub open spec fn skips(self, name: Seq<char>) -> bool {
        names_contain(self.names_views(), name) || exists|i: int|
            0 <= i < self.glob_sources().len() && regex_is_match(
                #[trigger] self.glob_sources()[i],
                name,
            )
    }

    /// Whether a directory of this base name is pruned: exact-name entries
    /// only, globs are never consulted for directories.
    pub open spec fn prunes(self, name: Seq<char>) -> bool {
        names_contain(self.names_views(), name)
    }
}

/// Compile an ignore list: keep every entry as an exact name, and compile each
/// wildcard entry, translated to an anchored regex, in order.
///
/// Succeeds exactly when every translated glob compiles; otherwise reports the
/// first glob entry whose translation does not, and no file is ever touched.
pub fn compile_ignore(ignore: Vec<String>) -> (r: Result<IgnoreSet, ReplacerError>)
    ensures
        (r is Ok) <==> (forall|i: int|
            0 <= i < ignore@.len() && has_wildcard(#[trigger] views(ignore@)[i])
                ==> regex_compiles_glob(views(ignore@)[i])),
        r is Ok ==> {
            let set = r.unwrap();
            &&& set.names@ == ignore@
            &&& set.wf()
        },
        r is Err ==> (r matches Err(ReplacerError::InvalidPattern(s)) && exists|i: int|
            {
                &&& 0 <= i < ignore@.len()
                &&& has_wildcard(#[trigger] views(ignore@)[i])
                &&& !regex_compiles_glob(views(ignore@)[i])
                &&& forall|j: int|
                    0 <= j < i && has_wildcard(#[trigger] views(ignore@)[j])
                        ==> regex_compiles_glob(views(ignore@)[j])
                &&& s@ == views(ignore@)[i]
            }),
{
    let ghost entries = views(ignore@);
    let mut globs: Vec<regex::Regex> = Vec::new();
    let mut i: usize = 0;
    while i < ignore.len()
        invariant
            entries == views(ignore@),
            entries.len() == ignore@.len(),
            0 <= i <= ignore@.len(),
            forall|j: int|
                0 <= j < i && has_wildcard(#[trigger] entries[j]) ==> regex_compiles_glob(
                    entries[j],
                ),
            globs@.map_values(|re: regex::Regex| regex_source(re)) == glob_entries(
                entries.take(i as int),
            ).map_values(|e: Seq<char>| glob_regex(e)),
        decreases ignore@.len() - i,
    {
        if contains_wildcard(&ignore[i]) {
            let translated = glob_to_regex(ignore[i].as_str());
            match regex_new(translated.as_str()) {
                Some(re) => {
                    let ghost prev = globs@;
                    globs.push(re);
                    proof {
                        lemma_glob_entries_step(entries, i as int);
                        assert(globs@.map_values(|re: regex::Regex| regex_source(re)) =~= prev
                            .map_values(|re: regex::Regex| regex_source(re)).push(
                            regex_source(globs@.last()),
                        ));
                        assert(globs@.map_values(|re: regex::Regex| regex_source(re))
                            =~= glob_entries(entries.take(i + 1)).map_values(
                            |e: Seq<char>| glob_regex(e),
                        ));
                    }
                },
                None => {
                    proof {
                        assert(entries[i as int] == ignore@[i as int]@);
                        assert(has_wildcard(entries[i as int]));
                        assert(!regex_compiles_glob(entries[i as int]));
                    }
                    return Err(ReplacerError::InvalidPattern(ignore[i].clone()));
                },
            }
        } else {
            proof {
                lemma_glob_entries_step(entries, i as int);
                assert(glob_entries(entries.take(i + 1)) == glob_entries(
                    entries.take(i as int),
                ));
            }
        }
        i = i + 1;
    }
    proof {
        assert(entries.take(ignore@.len() as int) =~= entries);
    }
    Ok(IgnoreSet { names: ignore, globs })
}

/// Whether the anchored regex a glob entry translates to compiles.
pub open spec fn regex_compiles_glob(entry: Seq<char>) -> bool {
    crate::pattern::regex_compiles(glob_regex(entry))
}

/// One step of the glob-entry filter: extending the prefix by one entry
/// appends its translation exactly when it holds a wildcard.
proof fn lemma_glob_entries_step(entries: Seq<Seq<char>>, i: int)
    requires
        0 <= i < entries.len(),
    ensures
        has_wildcard(entries[i]) ==> glob_entries(entries.take(i + 1)) == glob_entries(
            entries.take(i),
        ).push(entries[i]),
        !has_wildcard(entries[i]) ==> glob_entries(entries.take(i + 1)) == glob_entries(
            entries.take(i),
        ),
{
    reveal(Seq::filter);
    assert(entries.take(i + 1).drop_last() =~= entries.take(i));
    assert(entries.take(i + 1).last() == entries[i]);
}

/// Whether a file of this base name is excluded by the set.
pub fn should_skip_file(set: &IgnoreSet, name: &String) -> (r: bool)
    ensures
        r == set.skips(name@),
{
    if contains_name(&set.names, name) {
        return true;
    }
    let mut i: usize = 0;
    while i < set.globs.len()
        invariant
            0 <= i <= set.globs@.len(),
            !names_contain(set.names_views(), name@),
            forall|j: int| 0 <= j < i ==> !regex_is_match(#[trigger] set.glob_sources()[j], name@),
        decreases set.globs@.len() - i,
    {
        if regex_match(&set.globs[i], name.as_str()) {
            proof {
                assert(regex_is_match(set.glob_sources()[i as int], name@));
            }
            return true;
        }
        i = i + 1;
    }
    false
}

/// Whether a directory of this base name is pruned (its contents never
/// visited). Only exact-name entries prune; globs are not checked here.
pub fn should_prune_dir(set: &IgnoreSet, name: &String) -> (r: bool)
    ensures
        r == set.prunes(name@),
{
    contains_name(&set.names, name)
}

} // verus!
