//! Collecting the files reported changed since the last poll.
use vstd::prelude::*;
use crate::assets::paths::{paths_match, same_path};

verus! {

/// Some path of `list` names the same location as `x`.
pub open spec fn lists_path(list: Seq<Seq<char>>, x: Seq<char>) -> bool {
    exists|i: int| 0 <= i < list.len() && paths_match(#[trigger] list[i], x)
}

/// No path of `list` names the same location as a later one.
pub open spec fn paths_distinct(list: Seq<Seq<char>>) -> bool {
    forall|i: int, j: int| 0 <= i < j < list.len() ==> !paths_match(#[trigger] list[i], #[trigger] list[j])
}

/// `list` with `x` appended unless it already names that location.
pub open spec fn add_unique(list: Seq<Seq<char>>, x: Seq<char>) -> Seq<Seq<char>> {
    if lists_path(list, x) { list } else { list.push(x) }
}

/// `list` with the first `upto` of `paths` added in order, skipping repeats.
pub open spec fn add_all_unique(list: Seq<Seq<char>>, paths: Seq<Seq<char>>, upto: int) -> Seq<Seq<char>>
    decreases upto,
{
    if upto <= 0 {
        list
    } else {
        add_unique(add_all_unique(list, paths, upto - 1), paths[upto - 1])
    }
}

/// Views of a list of paths.
pub open spec fn paths_view(v: Seq<String>) -> Seq<Seq<char>> {
    v.map_values(|s: String| s@)
}

fn contains_path(list: &Vec<String>, p: &String) -> (r: bool)
    ensures
        r == lists_path(paths_view(list@), p@),
{
    let mut i: usize = 0;
    while i < list.len()
        invariant
            0 <= i <= list.len(),
            forall|j: int| 0 <= j < i ==> !paths_match(#[trigger] paths_view(list@)[j], p@),
        decreases list.len() - i,
    {
        if same_path(list[i].as_str(), p.as_str()) {
            assert(paths_match(paths_view(list@)[i as int], p@));
            return true;
        }
        i = i + 1;
    }
    false
}

/// Add the paths of one change event to the files changed so far, skipping
/// any already listed.
pub fn add_changed_paths(changed: &mut Vec<String>, paths: Vec<String>)
    ensures
        paths_view(final(changed)@) == add_all_unique(paths_view(old(changed)@), paths_view(paths@), paths@.len() as int),
{
    let ghost pv = paths_view(paths@);
    let mut i: usize = 0;
    while i < paths.len()
        invariant
            0 <= i <= paths.len(),
            pv == paths_view(paths@),
            paths_view(changed@) == add_all_unique(paths_view(old(changed)@), pv, i as int),
        decreases paths.len() - i,
    {
        let p = &paths[i];
        if !contains_path(changed, p) {
            changed.push(p.clone());
            assert(paths_view(changed@) =~= add_all_unique(paths_view(old(changed)@), pv, i as int).push(pv[i as int]));
        }
        i = i + 1;
    }
}

/// A list built by adding paths while skipping repeats never lists one
/// location twice, and lists the location of every path added.
pub proof fn law_changed_paths_unique(list: Seq<Seq<char>>, paths: Seq<Seq<char>>, upto: int)
    requires
        paths_distinct(list),
        0 <= upto <= paths.len(),
    ensures
        paths_distinct(add_all_unique(list, paths, upto)),
        forall|k: int| 0 <= k < upto ==> lists_path(add_all_unique(list, paths, upto), #[trigger] paths[k]),
    decreases upto,
{
    if upto > 0 {
        law_changed_paths_unique(list, paths, upto - 1);
        let prev = add_all_unique(list, paths, upto - 1);
        let x = paths[upto - 1];
        let next = add_all_unique(list, paths, upto);
        if !lists_path(prev, x) {
            assert(next == prev.push(x));
            assert forall|i: int, j: int| 0 <= i < j < next.len() implies !paths_match(#[trigger] next[i], #[trigger] next[j]) by {
                if j == prev.len() {
                    assert(!paths_match(prev[i], x));
                }
            }
            assert(paths_match(next[prev.len() as int], x));
        }
        assert forall|k: int| 0 <= k < upto implies lists_path(next, #[trigger] paths[k]) by {
            if k < upto - 1 {
                let i = choose|i: int| 0 <= i < prev.len() && paths_match(#[trigger] prev[i], paths[k]);
                assert(next[i] == prev[i]);
            } else if !lists_path(prev, x) {
                assert(paths_match(next[prev.len() as int], paths[k]));
            }
        }
    }
}

} // verus!
