//! Choosing the files that the document shows.
use vstd::prelude::*;
use crate::extensions::{language_of, SupportedExtensions};
use crate::ignore::{
    glob_valid, ignored, is_ignored, lemma_malformed_pattern_matches_nothing, texts,
};
use crate::paths::{extension_of, path_extension};

verus! {

/// One entry met while walking the input directory.
pub struct WalkEntry {
    pub path: String,
    pub is_file: bool,
}

/// The language that the registry gives to the file at `path`, by its extension.
pub open spec fn file_language(path: Seq<char>) -> Option<Seq<char>> {
    match path_extension(path) {
        Some(ext) => language_of(ext),
        None => None,
    }
}

/// Whether the walk entry `e` is shown: a regular file, not ignored, of a known language.
pub open spec fn chosen(e: WalkEntry, patterns: Seq<Seq<char>>) -> bool {
    e.is_file && !ignored(e.path@, patterns) && file_language(e.path@) is Some
}

/// The paths of the chosen entries among the first `n`, in walk order.
pub open spec fn chosen_upto(entries: Seq<WalkEntry>, patterns: Seq<Seq<char>>, n: int) -> Seq<
    Seq<char>,
>
    decreases n,
{
    if n <= 0 {
        seq![]
    } else if chosen(entries[n - 1], patterns) {
        chosen_upto(entries, patterns, n - 1).push(entries[n - 1].path@)
    } else {
        chosen_upto(entries, patterns, n - 1)
    }
}

/// Whether `path` is the path of a walk entry among the first `n` that is chosen.
pub open spec fn comes_from_chosen(
    entries: Seq<WalkEntry>,
    patterns: Seq<Seq<char>>,
    n: int,
    path: Seq<char>,
) -> bool {
    exists|j: int|
        #![trigger entries[j]]
        0 <= j < n && entries[j].path@ == path && chosen(entries[j], patterns)
}

/// What every collected path is: a regular file met in the walk that no
/// pattern excludes, whose extension the registry knows.
pub open spec fn collected_file(
    entries: Seq<WalkEntry>,
    patterns: Seq<Seq<char>>,
    path: Seq<char>,
) -> bool {
    &&& exists|j: int|
        #![trigger entries[j]]
        0 <= j < entries.len() && entries[j].path@ == path && entries[j].is_file
    &&& !ignored(path, patterns)
    &&& path_extension(path) matches Some(ext) && language_of(ext) is Some
}

/// The language of the file at `path`, by its extension.
pub fn language_for_path<'a>(extensions: &'a SupportedExtensions, path: &str) -> (r: Option<&'a str>)
    ensures
        r matches Some(l) ==> file_language(path@) == Some(l@),
        r is None <==> file_language(path@) is None,
{
    match extension_of(path) {
        Some(ext) => extensions.get_language(ext.as_str()),
        None => None,
    }
}

/// Collects, in walk order, the paths of the regular files that no pattern
/// excludes and whose extension the registry knows.
pub fn collect_files(
    entries: &Vec<WalkEntry>,
    ignore_patterns: &Vec<String>,
    extensions: &SupportedExtensions,
) -> (r: Vec<String>)
    ensures
        texts(r@) == chosen_upto(entries@, texts(ignore_patterns@), entries@.len() as int),
        forall|i: int|
            0 <= i < r@.len() ==> #[trigger] collected_file(
                entries@,
                texts(ignore_patterns@),
                r@[i]@,
            ),
{
    let ghost pats = texts(ignore_patterns@);
    let mut r: Vec<String> = Vec::new();
    let mut i: usize = 0;
    while i < entries.len()
        invariant
            i <= entries.len(),
            pats == texts(ignore_patterns@),
            texts(r@) == chosen_upto(entries@, pats, i as int),
        decreases entries.len() - i,
    {
        let e = &entries[i];
        if e.is_file && !is_ignored(e.path.as_str(), ignore_patterns) {
            if language_for_path(extensions, e.path.as_str()).is_some() {
                let ghost before = r@;
                r.push(e.path.clone());
                assert(texts(r@) =~= texts(before).push(e.path@));
            }
        }
        i = i + 1;
    }
    proof {
        lemma_chosen_come_from_entries(entries@, pats, entries@.len() as int);
        assert forall|m: int| 0 <= m < r@.len() implies #[trigger] collected_file(
            entries@,
            pats,
            r@[m]@,
        ) by {
            assert(texts(r@)[m] == r@[m]@);
            assert(comes_from_chosen(entries@, pats, entries@.len() as int, texts(r@)[m]));
            let j = choose|j: int|
                #![trigger entries@[j]]
                0 <= j < entries@.len() && entries@[j].path@ == texts(r@)[m] && chosen(
                    entries@[j],
                    pats,
                );
            assert(entries@[j].path@ == r@[m]@);
        }
    }
    r
}

/// Every chosen path is the path of a chosen entry among the first `n`.
proof fn lemma_chosen_come_from_entries(entries: Seq<WalkEntry>, patterns: Seq<Seq<char>>, n: int)
    requires
        0 <= n <= entries.len(),
    ensures
        forall|k: int|
            0 <= k < chosen_upto(entries, patterns, n).len() ==> comes_from_chosen(
                entries,
                patterns,
                n,
                #[trigger] chosen_upto(entries, patterns, n)[k],
            ),
    decreases n,
{
    if n > 0 {
        lemma_chosen_come_from_entries(entries, patterns, n - 1);
        let prev = chosen_upto(entries, patterns, n - 1);
        let cur = chosen_upto(entries, patterns, n);
        assert forall|k: int| 0 <= k < cur.len() implies comes_from_chosen(
            entries,
            patterns,
            n,
            #[trigger] cur[k],
        ) by {
            if k < prev.len() {
                assert(cur[k] == prev[k]);
                assert(comes_from_chosen(entries, patterns, n - 1, prev[k]));
                let j = choose|j: int|
                    #![trigger entries[j]]
                    0 <= j < n - 1 && entries[j].path@ == prev[k] && chosen(entries[j], patterns);
                assert(entries[j].path@ == cur[k]);
            } else {
                assert(chosen(entries[n - 1], patterns));
                assert(entries[n - 1].path@ == cur[k]);
            }
        }
    }
}

/// A malformed pattern hides no file: the files collected with it are the
/// files collected without it.
pub proof fn lemma_malformed_pattern_keeps_files(
    entries: Seq<WalkEntry>,
    patterns: Seq<Seq<char>>,
    k: int,
    n: int,
)
    requires
        0 <= k < patterns.len(),
        !glob_valid(patterns[k]),
    ensures
        chosen_upto(entries, patterns, n) == chosen_upto(entries, patterns.remove(k), n),
    decreases n,
{
    if n > 0 {
        lemma_malformed_pattern_keeps_files(entries, patterns, k, n - 1);
        lemma_malformed_pattern_matches_nothing(entries[n - 1].path@, patterns, k);
    }
}

} // verus!
