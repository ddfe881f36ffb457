//! Entity names and parent links in scene files.
//!
//! When a world is saved, entity `i` (in the order the world lists them) is
//! named `Entity_i`, and an entity with a parent stores the parent's name.
//! When a scene is loaded, every entity is spawned first; then each stored
//! parent name is looked up (the last entity with a name wins) and the child
//! is attached to that parent.
use vstd::prelude::*;
use crate::text::{decimal, numbered};

verus! {

/// The parent and children of every entity of a scene, by position.
#[derive(Debug, Clone)]
pub struct SceneLinks {
    pub parent_of: Vec<Option<usize>>,
    pub children_of: Vec<Vec<usize>>,
}

/// Views of a list of names.
pub open spec fn names_view(v: Seq<String>) -> Seq<Seq<char>> {
    v.map_values(|s: String| s@)
}

/// Views of a list of optional names.
pub open spec fn refs_view(v: Seq<Option<String>>) -> Seq<Option<Seq<char>>> {
    v.map_values(|o: Option<String>| match o {
        Some(s) => Some(s@),
        None => None,
    })
}

/// The position of the last entity named `n`.
pub open spec fn last_index_of(names: Seq<Seq<char>>, n: Seq<char>) -> Option<int>
    decreases names.len(),
{
    if names.len() == 0 {
        None
    } else if names.last() == n {
        Some(names.len() - 1)
    } else {
        last_index_of(names.drop_last(), n)
    }
}

/// The (child, parent) links made from the first `upto` entities' parent names.
pub open spec fn spec_links(names: Seq<Seq<char>>, refs: Seq<Option<Seq<char>>>, upto: int) -> Seq<(int, int)>
    decreases upto,
{
    if upto <= 0 {
        Seq::empty()
    } else {
        let prev = spec_links(names, refs, upto - 1);
        let i = upto - 1;
        match refs[i] {
            Some(p) => match (last_index_of(names, p), last_index_of(names, names[i])) {
                (Some(pi), Some(ci)) => prev.push((ci, pi)),
                _ => prev,
            },
            None => prev,
        }
    }
}

/// The parent of `c` after the links are applied in order: the last one wins.
pub open spec fn parent_after(links: Seq<(int, int)>, c: int) -> Option<int>
    decreases links.len(),
{
    if links.len() == 0 {
        None
    } else if links.last().0 == c {
        Some(links.last().1)
    } else {
        parent_after(links.drop_last(), c)
    }
}

/// The children of `p` after the links are applied in order.
pub open spec fn children_after(links: Seq<(int, int)>, p: int) -> Seq<int>
    decreases links.len(),
{
    if links.len() == 0 {
        Seq::empty()
    } else if links.last().1 == p {
        children_after(links.drop_last(), p).push(links.last().0)
    } else {
        children_after(links.drop_last(), p)
    }
}

/// The hierarchy that loading a scene builds: for every entity its parent
/// and its children, as positions.
pub open spec fn spec_scene_links(names: Seq<Seq<char>>, refs: Seq<Option<Seq<char>>>) -> (
    Seq<Option<int>>,
    Seq<Seq<int>>,
) {
    let links = spec_links(names, refs, names.len() as int);
    (
        Seq::new(names.len(), |c: int| parent_after(links, c)),
        Seq::new(names.len(), |p: int| children_after(links, p)),
    )
}

fn last_index(names: &Vec<String>, n: &String) -> (r: Option<usize>)
    ensures
        r matches Some(i) ==> Some(i as int) == last_index_of(names_view(names@), n@),
        r is None ==> last_index_of(names_view(names@), n@) is None,
{
    let ghost nv = names_view(names@);
    let mut found: Option<usize> = None;
    let mut j: usize = 0;
    while j < names.len()
        invariant
            0 <= j <= names.len(),
            nv == names_view(names@),
            found matches Some(i) ==> Some(i as int) == last_index_of(nv.take(j as int), n@),
            found is None ==> last_index_of(nv.take(j as int), n@) is None,
        decreases names.len() - j,
    {
        assert(nv.take(j + 1).drop_last() =~= nv.take(j as int));
        if names[j] == *n {
            found = Some(j);
        }
        j = j + 1;
    }
    assert(nv.take(names.len() as int) =~= nv);
    found
}

fn opt_string_view_eq(o: &Option<String>) -> (r: Option<&String>)
    ensures
        r matches Some(s) ==> o == Some(*s),
        r is None ==> o is None,
{
    match o {
        Some(s) => Some(s),
        None => None,
    }
}

/// Wire up the hierarchy of a loaded scene: `names[i]` is the name of entity
/// `i`, `parent_refs[i]` the parent name it stores (if any). Returns, for
/// every entity, its parent and its children, by position.
pub fn link_scene(names: &Vec<String>, parent_refs: &Vec<Option<String>>) -> (l: SceneLinks)
    requires
        names.len() == parent_refs.len(),
    ensures
        l.parent_of.len() == names.len(),
        l.children_of.len() == names.len(),
        forall|c: int| 0 <= c < names.len() ==> (match #[trigger] l.parent_of@[c] {
            Some(p) => Some(p as int),
            None => None,
        }) == spec_scene_links(names_view(names@), refs_view(parent_refs@)).0[c],
        forall|p: int| 0 <= p < names.len() ==> (#[trigger] l.children_of@[p])@.map_values(|x: usize| x as int)
            == spec_scene_links(names_view(names@), refs_view(parent_refs@)).1[p],
{
    let n = names.len();
    let ghost nv = names_view(names@);
    let ghost rv = refs_view(parent_refs@);
    // The links, in the order the entities list them.
    let mut links: Vec<(usize, usize)> = Vec::new();
    let mut i: usize = 0;
    while i < n
        invariant
            n == names.len(),
            n == parent_refs.len(),
            nv == names_view(names@),
            rv == refs_view(parent_refs@),
            0 <= i <= n,
            links@.map_values(|x: (usize, usize)| (x.0 as int, x.1 as int)) == spec_links(nv, rv, i as int),
            forall|k: int| 0 <= k < links.len() ==> (#[trigger] links@[k]).0 < n && links@[k].1 < n,
        decreases n - i,
    {
        let ghost before = links@;
        match opt_string_view_eq(&parent_refs[i]) {
            Some(pname) => {
                assert(rv[i as int] == Some(pname@));
                let pi = last_index(names, pname);
                let ci = last_index(names, &names[i]);
                match (pi, ci) {
                    (Some(pi), Some(ci)) => {
                        proof {
                            lemma_last_index_bound(nv, pname@);
                            lemma_last_index_bound(nv, nv[i as int]);
                        }
                        links.push((ci, pi));
                        assert(links@.map_values(|x: (usize, usize)| (x.0 as int, x.1 as int))
                            =~= before.map_values(|x: (usize, usize)| (x.0 as int, x.1 as int)).push((ci as int, pi as int)));
                    },
                    _ => {},
                }
            },
            None => {
                assert(rv[i as int] is None);
            },
        }
        i = i + 1;
    }
    let ghost links_v = spec_links(nv, rv, n as int);
    // Apply the links in order.
    let mut parent_of: Vec<Option<usize>> = Vec::new();
    let mut children_of: Vec<Vec<usize>> = Vec::new();
    let mut k: usize = 0;
    while k < n
        invariant
            0 <= k <= n,
            parent_of.len() == k,
            children_of.len() == k,
            forall|c: int| 0 <= c < k ==> (#[trigger] parent_of@[c]) is None,
            forall|c: int| 0 <= c < k ==> (#[trigger] children_of@[c])@ == Seq::<usize>::empty(),
        decreases n - k,
    {
        parent_of.push(None);
        children_of.push(Vec::new());
        k = k + 1;
    }
    let mut j: usize = 0;
    while j < links.len()
        invariant
            n == names.len(),
            0 <= j <= links.len(),
            parent_of.len() == n,
            children_of.len() == n,
            links_v == links@.map_values(|x: (usize, usize)| (x.0 as int, x.1 as int)),
            forall|k: int| 0 <= k < links.len() ==> (#[trigger] links@[k]).0 < n && links@[k].1 < n,
            forall|c: int| 0 <= c < n ==> (match #[trigger] parent_of@[c] {
                Some(p) => Some(p as int),
                None => None,
            }) == parent_after(links_v.take(j as int), c),
            forall|p: int| 0 <= p < n ==> (#[trigger] children_of@[p])@.map_values(|x: usize| x as int)
                == children_after(links_v.take(j as int), p),
        decreases links.len() - j,
    {
        let (c, p) = links[j];
        let ghost taken = links_v.take(j + 1);
        assert(taken.drop_last() =~= links_v.take(j as int));
        assert(taken.last() == (c as int, p as int));
        parent_of.set(c, Some(p));
        let mut kids = children_of[p].clone();
        assert(kids@ =~= children_of@[p as int]@);
        kids.push(c);
        children_of.set(p, kids);
        assert forall|q: int| 0 <= q < n implies (#[trigger] children_of@[q])@.map_values(|x: usize| x as int)
            == children_after(taken, q) by {
            if q == p {
                assert(children_of@[q]@.map_values(|x: usize| x as int)
                    =~= children_after(links_v.take(j as int), q).push(c as int));
            }
        }
        j = j + 1;
    }
    assert(links_v.take(links.len() as int) =~= links_v);
    SceneLinks { parent_of, children_of }
}

proof fn lemma_last_index_bound(names: Seq<Seq<char>>, n: Seq<char>)
    ensures
        last_index_of(names, n) matches Some(i) ==> 0 <= i < names.len() && names[i] == n,
    decreases names.len(),
{
    if names.len() > 0 && names.last() != n {
        lemma_last_index_bound(names.drop_last(), n);
    }
}


/// The name a saved entity gets from its position: `Entity_<position>`.
pub open spec fn entity_label(i: nat) -> Seq<char> {
    "Entity_"@ + decimal(i)
}

/// The names of the first `n` saved entities.
pub open spec fn saved_names(n: nat) -> Seq<Seq<char>> {
    Seq::new(n, |i: int| entity_label(i as nat))
}

/// The position of the first occurrence of `e` in `ids`.
pub open spec fn position_of(ids: Seq<u64>, e: u64) -> Option<int>
    decreases ids.len(),
{
    if ids.len() == 0 {
        None
    } else if ids[0] == e {
        Some(0)
    } else {
        match position_of(ids.drop_first(), e) {
            Some(k) => Some(k + 1),
            None => None,
        }
    }
}

/// The position, among the saved entities, of the parent of a saved entity.
pub open spec fn saved_parent_position(ids: Seq<u64>, parent: Option<u64>) -> Option<int> {
    match parent {
        Some(p) => position_of(ids, p),
        None => None,
    }
}

/// The parent names saved for entities with ids `ids` and parents `parents`:
/// the name of the parent's position, when the parent is among the saved entities.
pub open spec fn saved_parent_refs(ids: Seq<u64>, parents: Seq<Option<u64>>) -> Seq<Option<Seq<char>>> {
    Seq::new(parents.len(), |i: int| match saved_parent_position(ids, parents[i]) {
        Some(k) => Some(entity_label(k as nat)),
        None => None,
    })
}

/// The names under which `n` entities are saved: `Entity_0`, `Entity_1`, ...
pub fn saved_entity_names(n: usize) -> (names: Vec<String>)
    requires
        n <= u64::MAX,
    ensures
        names_view(names@) == saved_names(n as nat),
{
    let mut names: Vec<String> = Vec::new();
    let mut i: usize = 0;
    while i < n
        invariant
            0 <= i <= n,
            n <= u64::MAX,
            names.len() == i,
            names_view(names@) == saved_names(i as nat),
        decreases n - i,
    {
        let s = numbered("Entity_", i as u64);
        proof { reveal_strlit("Entity_"); }
        let ghost before = names@;
        names.push(s);
        assert forall|j: int| 0 <= j < i + 1 implies #[trigger] names_view(names@)[j] == saved_names((i + 1) as nat)[j] by {
            if j < i {
                assert(names@[j] == before[j]);
                assert(names_view(before)[j] == saved_names(i as nat)[j]);
            }
        }
        assert(names_view(names@) =~= saved_names((i + 1) as nat));
        i = i + 1;
    }
    names
}

/// The position of the first entity with id `e` in `ids`.
pub fn entity_position(ids: &Vec<u64>, e: u64) -> (r: Option<usize>)
    ensures
        r matches Some(k) ==> position_of(ids@, e) == Some(k as int),
        r is None ==> position_of(ids@, e) is None,
{
    let mut k: usize = 0;
    assert(ids@.skip(0) =~= ids@);
    while k < ids.len()
        invariant
            0 <= k <= ids.len(),
            position_of(ids@, e) == (match position_of(ids@.skip(k as int), e) {
                Some(j) => Some(j + k),
                None => None,
            }),
        decreases ids.len() - k,
    {
        assert(ids@.skip(k as int)[0] == ids@[k as int]);
        if ids[k] == e {
            return Some(k);
        }
        assert(ids@.skip(k as int).drop_first() =~= ids@.skip(k + 1));
        k = k + 1;
    }
    assert(ids@.skip(k as int).len() == 0);
    None
}

/// The parent names to save: for entity `i` with parent `parents[i]`, the saved
/// name of that parent, if the parent is among `ids`.
pub fn saved_parent_names(ids: &Vec<u64>, parents: &Vec<Option<u64>>) -> (refs: Vec<Option<String>>)
    requires
        ids.len() <= u64::MAX,
    ensures
        refs_view(refs@) == saved_parent_refs(ids@, parents@),
{
    let mut refs: Vec<Option<String>> = Vec::new();
    let mut i: usize = 0;
    while i < parents.len()
        invariant
            0 <= i <= parents.len(),
            ids.len() <= u64::MAX,
            refs.len() == i,
            refs_view(refs@) == saved_parent_refs(ids@, parents@.take(i as int)),
        decreases parents.len() - i,
    {
        let r = match parents[i] {
            Some(p) => match entity_position(ids, p) {
                Some(k) => {
                    proof { lemma_position_bound(ids@, p); }
                    let s = numbered("Entity_", k as u64);
                    proof { reveal_strlit("Entity_"); }
                    Some(s)
                },
                None => None,
            },
            None => None,
        };
        let ghost before = refs@;
        refs.push(r);
        assert forall|j: int| 0 <= j < i + 1 implies #[trigger] refs_view(refs@)[j]
            == saved_parent_refs(ids@, parents@.take(i + 1))[j] by {
            if j < i {
                assert(refs@[j] == before[j]);
                assert(refs_view(before)[j] == saved_parent_refs(ids@, parents@.take(i as int))[j]);
            }
        }
        assert(refs_view(refs@) =~= saved_parent_refs(ids@, parents@.take(i + 1)));
        i = i + 1;
    }
    assert(parents@.take(parents.len() as int) =~= parents@);
    refs
}

/// A found position is in range and holds the id looked for.
pub proof fn lemma_position_bound(ids: Seq<u64>, e: u64)
    ensures
        position_of(ids, e) matches Some(k) ==> 0 <= k < ids.len() && ids[k] == e,
        position_of(ids, e) is None ==> !ids.contains(e),
    decreases ids.len(),
{
    if ids.len() > 0 {
        lemma_position_bound(ids.drop_first(), e);
        if ids[0] != e && ids.contains(e) {
            let j = choose|j: int| 0 <= j < ids.len() && ids[j] == e;
            assert(ids.drop_first()[j - 1] == e);
        }
    }
}

/// Among the saved names, each name is found at its own position.
proof fn lemma_saved_name_found(m: nat, k: nat)
    ensures
        last_index_of(saved_names(m), entity_label(k)) == (if k < m { Some(k as int) } else { None::<int> }),
    decreases m,
{
    if m > 0 {
        let names = saved_names(m);
        assert(names.drop_last() =~= saved_names((m - 1) as nat));
        if names.last() == entity_label(k) {
            crate::text::lemma_numbered_injective("Entity_"@, (m - 1) as nat, k);
        }
        lemma_saved_name_found((m - 1) as nat, k);
    }
}

/// The links loading makes from the first `upto` saved entities: entity `i`
/// is linked to the position of its saved parent.
pub open spec fn expected_links(ids: Seq<u64>, parents: Seq<Option<u64>>, upto: int) -> Seq<(int, int)>
    decreases upto,
{
    if upto <= 0 {
        Seq::empty()
    } else {
        let prev = expected_links(ids, parents, upto - 1);
        match saved_parent_position(ids, parents[upto - 1]) {
            Some(k) => prev.push((upto - 1, k)),
            None => prev,
        }
    }
}

/// The saved entities among the first `upto` whose saved parent is at position `p`.
pub open spec fn expected_children(ids: Seq<u64>, parents: Seq<Option<u64>>, upto: int, p: int) -> Seq<int>
    decreases upto,
{
    if upto <= 0 {
        Seq::empty()
    } else {
        let prev = expected_children(ids, parents, upto - 1, p);
        if saved_parent_position(ids, parents[upto - 1]) == Some(p) {
            prev.push(upto - 1)
        } else {
            prev
        }
    }
}

proof fn lemma_links_match(ids: Seq<u64>, parents: Seq<Option<u64>>, upto: int)
    requires
        parents.len() == ids.len(),
        0 <= upto <= ids.len(),
    ensures
        spec_links(saved_names(ids.len()), saved_parent_refs(ids, parents), upto) == expected_links(ids, parents, upto),
    decreases upto,
{
    if upto > 0 {
        lemma_links_match(ids, parents, upto - 1);
        let i = upto - 1;
        let names = saved_names(ids.len());
        lemma_saved_name_found(ids.len(), i as nat);
        assert(names[i] == entity_label(i as nat));
        match saved_parent_position(ids, parents[i]) {
            Some(k) => {
                lemma_position_bound(ids, parents[i]->0);
                lemma_saved_name_found(ids.len(), k as nat);
            },
            None => {},
        }
    }
}

proof fn lemma_parent_after_expected(ids: Seq<u64>, parents: Seq<Option<u64>>, upto: int, c: int)
    requires
        0 <= upto,
    ensures
        parent_after(expected_links(ids, parents, upto), c)
            == (if 0 <= c < upto { saved_parent_position(ids, parents[c]) } else { None::<int> }),
    decreases upto,
{
    if upto > 0 {
        lemma_parent_after_expected(ids, parents, upto - 1, c);
        let prev = expected_links(ids, parents, upto - 1);
        match saved_parent_position(ids, parents[upto - 1]) {
            Some(k) => {
                assert(prev.push((upto - 1, k)).drop_last() =~= prev);
            },
            None => {},
        }
    }
}

proof fn lemma_children_after_expected(ids: Seq<u64>, parents: Seq<Option<u64>>, upto: int, p: int)
    requires
        0 <= upto,
    ensures
        children_after(expected_links(ids, parents, upto), p) == expected_children(ids, parents, upto, p),
    decreases upto,
{
    if upto > 0 {
        lemma_children_after_expected(ids, parents, upto - 1, p);
        let prev = expected_links(ids, parents, upto - 1);
        match saved_parent_position(ids, parents[upto - 1]) {
            Some(k) => {
                assert(prev.push((upto - 1, k)).drop_last() =~= prev);
            },
            None => {},
        }
    }
}

/// Saving a world and loading the scene back restores its hierarchy: the
/// entity loaded at position `c` gets as parent the entity loaded from the
/// position of its saved parent (which holds that parent's id), and as
/// children exactly the entities whose saved parent sits at `c`, in order.
pub proof fn law_save_load_restores_hierarchy(ids: Seq<u64>, parents: Seq<Option<u64>>, c: int)
    requires
        parents.len() == ids.len(),
        0 <= c < ids.len(),
    ensures
        spec_scene_links(saved_names(ids.len()), saved_parent_refs(ids, parents)).0[c]
            == saved_parent_position(ids, parents[c]),
        saved_parent_position(ids, parents[c]) matches Some(k) ==> 0 <= k < ids.len() && ids[k] == parents[c]->0,
        spec_scene_links(saved_names(ids.len()), saved_parent_refs(ids, parents)).1[c]
            == expected_children(ids, parents, ids.len() as int, c),
{
    lemma_links_match(ids, parents, ids.len() as int);
    lemma_parent_after_expected(ids, parents, ids.len() as int, c);
    lemma_children_after_expected(ids, parents, ids.len() as int, c);
    if parents[c] is Some {
        lemma_position_bound(ids, parents[c]->0);
    }
}
} // verus!
