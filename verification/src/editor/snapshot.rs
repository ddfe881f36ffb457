//! Parent links in the editor's undo snapshots.
//!
//! A snapshot lists the live entities in order; each entry records the
//! position of its parent within that list. Restoring spawns one entity per
//! entry, in order, and links every entry to the entity spawned for its
//! recorded parent position.
use vstd::prelude::*;
use crate::scene::hierarchy::{entity_position, lemma_position_bound, saved_parent_position, SceneLinks};

verus! {

/// Positions as integers.
pub open spec fn positions_view(pp: Seq<Option<usize>>) -> Seq<Option<int>> {
    pp.map_values(|o: Option<usize>| match o {
        Some(k) => Some(k as int),
        None => None,
    })
}

/// The parent position recorded for each entity of a snapshot of the
/// entities `ids` with parents `parents`.
pub open spec fn recorded_parents(ids: Seq<u64>, parents: Seq<Option<u64>>) -> Seq<Option<int>> {
    Seq::new(parents.len(), |i: int| saved_parent_position(ids, parents[i]))
}

/// The positions below `upto` whose recorded parent is position `p`, in order.
pub open spec fn children_at(pp: Seq<Option<int>>, upto: int, p: int) -> Seq<int>
    decreases upto,
{
    if upto <= 0 {
        Seq::empty()
    } else if pp[upto - 1] == Some(p) {
        children_at(pp, upto - 1, p).push(upto - 1)
    } else {
        children_at(pp, upto - 1, p)
    }
}

/// The positions below `upto` of the entities whose parent is the entity `e`, in order.
pub open spec fn children_of_entity(parents: Seq<Option<u64>>, upto: int, e: u64) -> Seq<int>
    decreases upto,
{
    if upto <= 0 {
        Seq::empty()
    } else if parents[upto - 1] == Some(e) {
        children_of_entity(parents, upto - 1, e).push(upto - 1)
    } else {
        children_of_entity(parents, upto - 1, e)
    }
}

/// Every recorded parent position lies within the snapshot.
pub open spec fn positions_in_range(pp: Seq<Option<usize>>) -> bool {
    forall|i: int| 0 <= i < pp.len() ==> (#[trigger] pp[i] matches Some(k) ==> k < pp.len())
}

/// The parent positions to record for the entities `ids` (in snapshot order)
/// whose parents are `parents`: the position of each parent among `ids`, or
/// none for an entity without a parent or whose parent is not listed.
pub fn parent_positions(ids: &Vec<u64>, parents: &Vec<Option<u64>>) -> (pp: Vec<Option<usize>>)
    ensures
        positions_view(pp@) == recorded_parents(ids@, parents@),
        parents.len() == ids.len() ==> positions_in_range(pp@),
{
    let mut pp: Vec<Option<usize>> = Vec::new();
    let mut i: usize = 0;
    while i < parents.len()
        invariant
            0 <= i <= parents.len(),
            pp.len() == i,
            forall|j: int| 0 <= j < i ==> (#[trigger] positions_view(pp@)[j]) == saved_parent_position(ids@, parents@[j]),
            forall|j: int| 0 <= j < i ==> (#[trigger] pp@[j] matches Some(k) ==> k < ids.len()),
        decreases parents.len() - i,
    {
        let r = match parents[i] {
            Some(p) => {
                proof { lemma_position_bound(ids@, p); }
                entity_position(ids, p)
            },
            None => None,
        };
        let ghost before = pp@;
        pp.push(r);
        assert forall|j: int| 0 <= j < i + 1 implies (#[trigger] positions_view(pp@)[j])
            == saved_parent_position(ids@, parents@[j]) by {
            if j < i {
                assert(pp@[j] == before[j]);
                assert(positions_view(before)[j] == saved_parent_position(ids@, parents@[j]));
            }
        }
        i = i + 1;
    }
    assert(positions_view(pp@) =~= recorded_parents(ids@, parents@));
    pp
}

/// The hierarchy a snapshot restores: every entry's parent is the recorded
/// position, and every position's children are the entries recording it, in
/// snapshot order.
pub fn restore_links(pp: &Vec<Option<usize>>) -> (l: SceneLinks)
    requires
        positions_in_range(pp@),
    ensures
        l.parent_of@ == pp@,
        l.children_of.len() == pp.len(),
        forall|p: int| 0 <= p < pp.len() ==> (#[trigger] l.children_of@[p])@.map_values(|x: usize| x as int)
            == children_at(positions_view(pp@), pp.len() as int, p),
{
    let n = pp.len();
    let ghost pv = positions_view(pp@);
    let mut children_of: Vec<Vec<usize>> = Vec::new();
    let mut k: usize = 0;
    while k < n
        invariant
            0 <= k <= n,
            children_of.len() == k,
            forall|c: int| 0 <= c < k ==> (#[trigger] children_of@[c])@ == Seq::<usize>::empty(),
        decreases n - k,
    {
        children_of.push(Vec::new());
        k = k + 1;
    }
    assert forall|q: int| 0 <= q < n implies (#[trigger] children_of@[q])@.map_values(|x: usize| x as int)
        == children_at(pv, 0, q) by {
        assert(children_of@[q]@.map_values(|x: usize| x as int) =~= Seq::<int>::empty());
    }
    let mut i: usize = 0;
    while i < n
        invariant
            n == pp.len(),
            pv == positions_view(pp@),
            positions_in_range(pp@),
            0 <= i <= n,
            children_of.len() == n,
            forall|q: int| 0 <= q < n ==> (#[trigger] children_of@[q])@.map_values(|x: usize| x as int)
                == children_at(pv, i as int, q),
        decreases n - i,
    {
        match pp[i] {
            Some(p) => {
                assert(pp@[i as int] matches Some(k) ==> k < pp.len());
                let mut kids = children_of[p].clone();
                assert(kids@ =~= children_of@[p as int]@);
                kids.push(i);
                children_of.set(p, kids);
                assert forall|q: int| 0 <= q < n implies (#[trigger] children_of@[q])@.map_values(|x: usize| x as int)
                    == children_at(pv, i + 1, q) by {
                    assert(pv[i as int] == Some(p as int));
                    if q == p {
                        assert(children_of@[q]@.map_values(|x: usize| x as int)
                            =~= children_at(pv, i as int, q).push(i as int));
                    }
                }
            },
            None => {
                assert forall|q: int| 0 <= q < n implies (#[trigger] children_of@[q])@.map_values(|x: usize| x as int)
                    == children_at(pv, i + 1, q) by {
                    assert(pv[i as int] == None::<int>);
                }
            },
        }
        i = i + 1;
    }
    SceneLinks { parent_of: pp.clone(), children_of }
}

proof fn lemma_children_match(ids: Seq<u64>, parents: Seq<Option<u64>>, upto: int, c: int)
    requires
        parents.len() == ids.len(),
        ids.no_duplicates(),
        0 <= c < ids.len(),
        0 <= upto <= ids.len(),
    ensures
        children_at(recorded_parents(ids, parents), upto, c) == children_of_entity(parents, upto, ids[c]),
    decreases upto,
{
    if upto > 0 {
        lemma_children_match(ids, parents, upto - 1, c);
        let i = upto - 1;
        match parents[i] {
            Some(q) => {
                lemma_position_bound(ids, q);
                if q == ids[c] {
                    assert(ids.contains(q));
                }
            },
            None => {},
        }
    }
}

/// Restoring a snapshot gives back the hierarchy it was taken from: an entry
/// is linked to the entry of its parent exactly when the parent was in the
/// snapshot, and the children of each entry are the entries whose parent it
/// was, in snapshot order.
pub proof fn law_snapshot_restores_hierarchy(ids: Seq<u64>, parents: Seq<Option<u64>>, c: int)
    requires
        parents.len() == ids.len(),
        ids.no_duplicates(),
        0 <= c < ids.len(),
    ensures
        recorded_parents(ids, parents)[c] matches Some(k) ==> 0 <= k < ids.len() && parents[c] == Some(ids[k]),
        recorded_parents(ids, parents)[c] is None ==> (parents[c] matches Some(q) ==> !ids.contains(q)),
        children_at(recorded_parents(ids, parents), ids.len() as int, c)
            == children_of_entity(parents, ids.len() as int, ids[c]),
{
    if parents[c] is Some {
        lemma_position_bound(ids, parents[c]->0);
    }
    lemma_children_match(ids, parents, ids.len() as int, c);
}

} // verus!
