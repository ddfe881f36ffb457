//! Parent and children links between the editor's entities.
//!
//! Every entity may have a parent and a list of children; entities are
//! identified by the integer ids the world gives them.
use std::collections::HashMap;
use vstd::prelude::*;
use crate::lists::{without, retain_without, lemma_without_contains, lemma_without_no_duplicates};

verus! {

broadcast use vstd::std_specs::hash::group_hash_axioms;

/// The abstract content of an [`EntityTree`].
pub struct TreeView {
    pub parent: Map<u64, u64>,
    pub children: Map<u64, Seq<u64>>,
}

/// Parent and children links of the editor's entities.
#[derive(Debug)]
pub struct EntityTree {
    parent: HashMap<u64, u64>,
    children: HashMap<u64, Vec<u64>>,
}

impl View for EntityTree {
    type V = TreeView;

    closed spec fn view(&self) -> TreeView {
        TreeView { parent: self.parent@, children: self.children@.map_values(|v: Vec<u64>| v@) }
    }
}

/// The tree after `child` leaves its parent: its parent link goes, and it
/// is taken out of the parent's children.
pub open spec fn spec_detach(t: TreeView, child: u64) -> TreeView {
    if t.parent.contains_key(child) {
        let op = t.parent[child];
        TreeView {
            parent: t.parent.remove(child),
            children: if t.children.contains_key(op) {
                t.children.insert(op, without(t.children[op], child))
            } else {
                t.children
            },
        }
    } else {
        t
    }
}

/// The tree after `child` is attached to `p`: its parent link is set, and
/// it is appended to `p`'s children.
pub open spec fn spec_link(t: TreeView, child: u64, p: u64) -> TreeView {
    TreeView {
        parent: t.parent.insert(child, p),
        children: t.children.insert(
            p,
            if t.children.contains_key(p) { t.children[p].push(child) } else { seq![child] },
        ),
    }
}

/// The tree after `child` is given the parent `parent` (or none).
pub open spec fn spec_set_parent(t: TreeView, child: u64, parent: Option<u64>) -> TreeView {
    match parent {
        Some(p) => spec_link(spec_detach(t, child), child, p),
        None => spec_detach(t, child),
    }
}

/// The children of `e` left when `e` is removed from its parent's children.
pub open spec fn removed_children(t: TreeView, e: u64) -> Seq<u64> {
    let t1 = spec_detach_list(t, e);
    if t1.children.contains_key(e) { t1.children[e] } else { Seq::empty() }
}

/// The tree with `e` taken out of its parent's children (its own parent
/// link stays until it is removed).
pub open spec fn spec_detach_list(t: TreeView, e: u64) -> TreeView {
    if t.parent.contains_key(e) && t.children.contains_key(t.parent[e]) {
        TreeView { parent: t.parent, children: t.children.insert(t.parent[e], without(t.children[t.parent[e]], e)) }
    } else {
        t
    }
}

/// The entities removed with `e`: its children, then `e` itself.
pub open spec fn spec_removed(t: TreeView, e: u64) -> Seq<u64> {
    removed_children(t, e).push(e)
}

/// The tree after `e` and its children are removed: they lose their own
/// links, and `e` leaves its parent's children.
pub open spec fn spec_remove(t: TreeView, e: u64) -> TreeView {
    let gone = spec_removed(t, e).to_set();
    let t1 = spec_detach_list(t, e);
    TreeView { parent: t1.parent.remove_keys(gone), children: t1.children.remove_keys(gone) }
}

/// Every parent link is mirrored by exactly one entry in the parent's children.
pub open spec fn consistent(t: TreeView) -> bool {
    &&& forall|c: u64| #[trigger] t.parent.contains_key(c) ==> t.children.contains_key(t.parent[c])
        && t.children[t.parent[c]].contains(c)
    &&& forall|p: u64, c: u64| #[trigger] t.children.contains_key(p) && #[trigger] t.children[p].contains(c)
        ==> t.parent.contains_key(c) && t.parent[c] == p
    &&& forall|p: u64| #[trigger] t.children.contains_key(p) ==> t.children[p].no_duplicates()
}

impl EntityTree {
    /// No links.
    pub fn new() -> (t: Self)
        ensures
            t@.parent == Map::<u64, u64>::empty(),
            t@.children == Map::<u64, Seq<u64>>::empty(),
    {
        let t = EntityTree { parent: HashMap::new(), children: HashMap::new() };
        assert(t@.children =~= Map::<u64, Seq<u64>>::empty());
        t
    }

    /// The parent of `e`, if it has one.
    pub fn parent_of(&self, e: u64) -> (p: Option<u64>)
        ensures
            p == (if self@.parent.contains_key(e) { Some(self@.parent[e]) } else { None }),
    {
        match self.parent.get(&e) {
            Some(p) => Some(*p),
            None => None,
        }
    }

    /// The children of `e` (none if it has no children list).
    pub fn children_of(&self, e: u64) -> (c: Vec<u64>)
        ensures
            c@ == (if self@.children.contains_key(e) { self@.children[e] } else { Seq::empty() }),
    {
        match self.children.get(&e) {
            Some(list) => {
                let mut out: Vec<u64> = Vec::new();
                let mut i: usize = 0;
                while i < list.len()
                    invariant
                        0 <= i <= list.len(),
                        out@ == list@.take(i as int),
                    decreases list.len() - i,
                {
                    out.push(list[i]);
                    assert(out@ =~= list@.take(i + 1));
                    i = i + 1;
                }
                assert(list@.take(list.len() as int) =~= list@);
                out
            },
            None => Vec::new(),
        }
    }

    fn detach(&mut self, child: u64)
        ensures
            final(self)@ == spec_detach(old(self)@, child),
    {
        match self.parent.remove(&child) {
            Some(op) => {
                match self.children.remove(&op) {
                    Some(list) => {
                        let mut list = list;
                        retain_without(&mut list, child);
                        self.children.insert(op, list);
                        assert(self@.children =~= old(self)@.children.insert(op, without(old(self)@.children[op], child)));
                    },
                    None => {
                        assert(self@.children =~= old(self)@.children);
                    },
                }
                assert(self@.parent =~= old(self)@.parent.remove(child));
            },
            None => {
                assert(self@.parent =~= old(self)@.parent);
            },
        }
    }

    /// Attach `child` to `p`: set its parent link and append it to `p`'s
    /// children, without touching any link it had before.
    pub fn link(&mut self, child: u64, p: u64)
        ensures
            final(self)@ == spec_link(old(self)@, child, p),
    {
        self.parent.insert(child, p);
        match self.children.remove(&p) {
            Some(list) => {
                let mut list = list;
                list.push(child);
                self.children.insert(p, list);
            },
            None => {
                let mut list: Vec<u64> = Vec::new();
                list.push(child);
                self.children.insert(p, list);
                assert(list@ =~= seq![child]);
            },
        }
        assert(self@.children =~= spec_link(old(self)@, child, p).children);
    }

    /// Give `child` the parent `parent`, or none: it leaves its old parent's
    /// children first.
    pub fn set_parent(&mut self, child: u64, parent: Option<u64>)
        ensures
            final(self)@ == spec_set_parent(old(self)@, child, parent),
    {
        self.detach(child);
        match parent {
            Some(p) => self.link(child, p),
            None => {},
        }
    }

    /// Remove `e` from the tree: it leaves its parent's children, and it and
    /// its children lose their links. Returns the entities removed: the
    /// children of `e`, then `e`.
    pub fn remove_entity(&mut self, e: u64) -> (gone: Vec<u64>)
        ensures
            gone@ == spec_removed(old(self)@, e),
            final(self)@ == spec_remove(old(self)@, e),
    {
        match self.parent.get(&e) {
            Some(p) => {
                let p = *p;
                match self.children.remove(&p) {
                    Some(list) => {
                        let mut list = list;
                        retain_without(&mut list, e);
                        self.children.insert(p, list);
                        assert(self@.children =~= spec_detach_list(old(self)@, e).children);
                    },
                    None => {
                        assert(self@.children =~= old(self)@.children);
                    },
                }
            },
            None => {},
        }
        let ghost t1 = self@;
        assert(t1 == spec_detach_list(old(self)@, e));
        let mut gone = self.children_of(e);
        gone.push(e);
        let ghost gset = gone@.to_set();
        let mut i: usize = 0;
        while i < gone.len()
            invariant
                0 <= i <= gone.len(),
                gset == gone@.to_set(),
                self@.parent == t1.parent.remove_keys(gone@.take(i as int).to_set()),
                self@.children == t1.children.remove_keys(gone@.take(i as int).to_set()),
            decreases gone.len() - i,
        {
            let x = gone[i];
            let ghost before = self@.children;
            self.parent.remove(&x);
            self.children.remove(&x);
            assert(self@.children =~= before.remove(x));
            assert(gone@.take(i + 1).to_set() =~= gone@.take(i as int).to_set().insert(x)) by {
                assert(gone@.take(i + 1) =~= gone@.take(i as int).push(x));
                gone@.take(i as int).lemma_push_to_set_commute(x);
            }
            assert(self@.parent =~= t1.parent.remove_keys(gone@.take(i + 1).to_set()));
            assert(self@.children =~= t1.children.remove_keys(gone@.take(i + 1).to_set()));
            i = i + 1;
        }
        assert(gone@.take(gone.len() as int) =~= gone@);
        gone
    }
}


/// Detaching keeps a tree consistent and leaves the entity in no children list.
proof fn lemma_detach_consistent(t: TreeView, c: u64)
    requires
        consistent(t),
    ensures
        consistent(spec_detach(t, c)),
        !spec_detach(t, c).parent.contains_key(c),
        forall|p: u64| #[trigger] spec_detach(t, c).children.contains_key(p) ==> !spec_detach(t, c).children[p].contains(c),
{
    let d = spec_detach(t, c);
    if t.parent.contains_key(c) {
        let op = t.parent[c];
        assert forall|x: u64| #[trigger] d.parent.contains_key(x) implies d.children.contains_key(d.parent[x])
            && d.children[d.parent[x]].contains(x) by {
            if t.parent[x] == op {
                lemma_without_contains(t.children[op], c, x);
            }
        }
        assert forall|p: u64, x: u64| #[trigger] d.children.contains_key(p) && #[trigger] d.children[p].contains(x)
            implies d.parent.contains_key(x) && d.parent[x] == p by {
            if p == op {
                lemma_without_contains(t.children[op], c, x);
            }
        }
        assert forall|p: u64| #[trigger] d.children.contains_key(p) implies d.children[p].no_duplicates() by {
            if p == op {
                lemma_without_no_duplicates(t.children[op], c);
            }
        }
        assert forall|p: u64| #[trigger] d.children.contains_key(p) implies !d.children[p].contains(c) by {
            if p == op {
                lemma_without_contains(t.children[op], c, c);
            }
        }
    }
}

/// Linking an entity that has no parent and is in no children list keeps a
/// tree consistent.
proof fn lemma_link_consistent(t: TreeView, c: u64, p: u64)
    requires
        consistent(t),
        !t.parent.contains_key(c),
        forall|q: u64| #[trigger] t.children.contains_key(q) ==> !t.children[q].contains(c),
    ensures
        consistent(spec_link(t, c, p)),
{
    let l = spec_link(t, c, p);
    let old_list = if t.children.contains_key(p) { t.children[p] } else { Seq::<u64>::empty() };
    assert(l.children[p] =~= old_list.push(c));
    assert forall|x: u64| #[trigger] l.parent.contains_key(x) implies l.children.contains_key(l.parent[x])
        && l.children[l.parent[x]].contains(x) by {
        crate::lists::lemma_contains_push(old_list, c, x);
    }
    assert forall|q: u64, x: u64| #[trigger] l.children.contains_key(q) && #[trigger] l.children[q].contains(x)
        implies l.parent.contains_key(x) && l.parent[x] == q by {
        if q == p {
            crate::lists::lemma_contains_push(old_list, c, x);
            if x != c {
                assert(t.children.contains_key(p));
            }
        }
    }
    assert forall|q: u64| #[trigger] l.children.contains_key(q) implies l.children[q].no_duplicates() by {
        if q == p {
            assert forall|i: int, j: int| 0 <= i < j < l.children[p].len() implies l.children[p][i] != l.children[p][j] by {
                if j == old_list.len() {
                    assert(old_list.contains(old_list[i]));
                }
            }
        }
    }
}

/// Re-parenting keeps every parent link mirrored by exactly one entry in
/// the parent's children: the entity ends up under its new parent (last in
/// its children) and in no other children list.
pub proof fn law_set_parent_keeps_tree_consistent(t: TreeView, child: u64, parent: Option<u64>)
    requires
        consistent(t),
    ensures
        consistent(spec_set_parent(t, child, parent)),
        parent matches Some(p) ==> spec_set_parent(t, child, parent).parent[child] == p
            && spec_set_parent(t, child, parent).children[p].last() == child,
        parent matches Some(p) ==> forall|q: u64| q != p && #[trigger] spec_set_parent(t, child, parent).children.contains_key(q)
            ==> !spec_set_parent(t, child, parent).children[q].contains(child),
        parent is None ==> !spec_set_parent(t, child, parent).parent.contains_key(child),
        parent is None ==> forall|q: u64| #[trigger] spec_set_parent(t, child, parent).children.contains_key(q)
            ==> !spec_set_parent(t, child, parent).children[q].contains(child),
{
    lemma_detach_consistent(t, child);
    match parent {
        Some(p) => {
            lemma_link_consistent(spec_detach(t, child), child, p);
        },
        None => {},
    }
}

/// Removing an entity from a consistent tree leaves no trace of it: no
/// entity keeps it as parent or among its children, and it has no links.
pub proof fn law_remove_leaves_no_links(t: TreeView, e: u64)
    requires
        consistent(t),
    ensures
        !spec_remove(t, e).parent.contains_key(e),
        !spec_remove(t, e).children.contains_key(e),
        forall|q: u64| #[trigger] spec_remove(t, e).children.contains_key(q) ==> !spec_remove(t, e).children[q].contains(e),
        forall|x: u64| #[trigger] spec_remove(t, e).parent.contains_key(x) ==> spec_remove(t, e).parent[x] != e,
{
    let t1 = spec_detach_list(t, e);
    let gone = spec_removed(t, e);
    assert(gone.contains(e)) by {
        assert(gone[gone.len() - 1] == e);
    }
    assert forall|q: u64| #[trigger] spec_remove(t, e).children.contains_key(q) implies !spec_remove(t, e).children[q].contains(e) by {
        if t.parent.contains_key(e) && q == t.parent[e] {
            lemma_without_contains(t.children[q], e, e);
        }
    }
    assert forall|x: u64| #[trigger] spec_remove(t, e).parent.contains_key(x) implies spec_remove(t, e).parent[x] != e by {
        if t.parent[x] == e {
            assert(t.children[e].contains(x));
            if t.parent.contains_key(e) && t.parent[e] == e {
                lemma_without_contains(t.children[e], e, x);
            }
            assert(removed_children(t, e).contains(x));
            let k = choose|k: int| 0 <= k < removed_children(t, e).len() && removed_children(t, e)[k] == x;
            assert(gone[k] == x);
            assert(gone.contains(x));
        }
    }
}
} // verus!
