//! The list of recently opened scene files, most recent first.
use vstd::prelude::*;
use crate::lists::{without, lemma_without_contains, lemma_without_len, lemma_without_no_duplicates};

verus! {

/// The list keeps at most this many files.
pub const MAX_RECENT_FILES: usize = 10;

/// The paths of a list of strings, as character sequences.
pub open spec fn paths_view(v: Seq<String>) -> Seq<Seq<char>> {
    v.map_values(|s: String| s@)
}

/// The list after opening `path`: it moves (or is added) to the front, and
/// the last entry falls off when the list grows past the limit.
pub open spec fn spec_add_recent(list: Seq<Seq<char>>, path: Seq<char>) -> Seq<Seq<char>> {
    let l = seq![path] + without(list, path);
    if l.len() > MAX_RECENT_FILES { l.drop_last() } else { l }
}

/// Add a scene path to the recent files list (deduplicated, at most ten entries).
pub fn add_recent_file(recent: &mut Vec<String>, path: String)
    ensures
        paths_view(final(recent)@) == spec_add_recent(paths_view(old(recent)@), path@),
{
    let ghost old_view = paths_view(recent@);
    let mut kept: Vec<String> = Vec::new();
    let n = recent.len();
    let mut i: usize = 0;
    while i < n
        invariant
            n == recent@.len(),
            old_view == paths_view(recent@),
            0 <= i <= n,
            paths_view(kept@) == without(old_view.take(i as int), path@),
        decreases n - i,
    {
        assert(old_view.take(i + 1).drop_last() =~= old_view.take(i as int));
        if recent[i] != path {
            kept.push(recent[i].clone());
            assert(paths_view(kept@) =~= without(old_view.take(i as int), path@).push(old_view[i as int]));
        }
        i = i + 1;
    }
    assert(old_view.take(n as int) =~= old_view);
    kept.insert(0, path);
    assert(paths_view(kept@) =~= seq![path@] + without(old_view, path@));
    if kept.len() > MAX_RECENT_FILES {
        kept.pop();
        assert(paths_view(kept@) =~= (seq![path@] + without(old_view, path@)).drop_last());
    }
    *recent = kept;
}

/// Opening a file puts it first, keeps the list free of duplicates and at
/// most ten long, and keeps every other file that was in the list, in
/// the same relative order, except that only the ten most recent are kept.
pub proof fn law_recent_files(list: Seq<Seq<char>>, path: Seq<char>, other: Seq<char>)
    requires
        list.no_duplicates(),
        list.len() <= MAX_RECENT_FILES,
    ensures
        spec_add_recent(list, path)[0] == path,
        spec_add_recent(list, path).no_duplicates(),
        spec_add_recent(list, path).len() <= MAX_RECENT_FILES,
        spec_add_recent(list, path).contains(other) ==> other == path || list.contains(other),
        list.contains(other) && other != path && without(list, path).len() < MAX_RECENT_FILES
            ==> spec_add_recent(list, path).contains(other),
{
    lemma_without_no_duplicates(list, path);
    lemma_without_contains(list, path, path);
    lemma_without_contains(list, path, other);
    lemma_without_len(list, path);
    let w = without(list, path);
    let l = seq![path] + w;
    assert forall|i: int, j: int| 0 <= i < j < l.len() implies l[i] != l[j] by {
        if i == 0 {
            assert(w.contains(l[j]));
        }
    }
    assert(l.no_duplicates());
    let r = spec_add_recent(list, path);
    if r.contains(other) {
        let k = choose|k: int| 0 <= k < r.len() && r[k] == other;
        if k > 0 {
            assert(w.contains(w[k - 1]));
        }
    }
    if list.contains(other) && other != path && w.len() < MAX_RECENT_FILES {
        let k = choose|k: int| 0 <= k < w.len() && w[k] == other;
        assert(r[k + 1] == other);
    }
}

} // verus!
