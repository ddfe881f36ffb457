//! The order in which parent transforms are passed down to children.
//!
//! Every child with a transform is linked to its parent. A child's world
//! transform is computed from its parent's: a root parent (one with a
//! transform and no parent of its own) gives its own transform, a parent that
//! is itself a child gives the world transform computed for it before. The
//! links are walked in passes, in their order, until a pass resolves no new
//! child, and at most `MAX_PASSES` times.
use vstd::prelude::*;

verus! {

/// The most passes made over the links.
pub const MAX_PASSES: usize = 64;

/// Some entry of `s` has `e` as its child.
pub open spec fn child_listed(s: Seq<(u64, u64)>, e: u64) -> bool {
    exists|i: int| 0 <= i < s.len() && (#[trigger] s[i]).0 == e
}

/// `e` passes down its own transform: it has one and no parent link.
pub open spec fn is_root(links: Seq<(u64, u64)>, with_transform: Seq<u64>, e: u64) -> bool {
    with_transform.contains(e) && !child_listed(links, e)
}

/// The resolved children after one pass over the first `upto` links,
/// starting from `start`: a link is resolved when its child is not yet and
/// its parent is a root or an already resolved child.
pub open spec fn pass(links: Seq<(u64, u64)>, with_transform: Seq<u64>, start: Seq<(u64, u64)>, upto: int) -> Seq<(u64, u64)>
    decreases upto,
{
    if upto <= 0 {
        start
    } else {
        let prev = pass(links, with_transform, start, upto - 1);
        let l = links[upto - 1];
        if !child_listed(prev, l.0) && (is_root(links, with_transform, l.1) || child_listed(prev, l.1)) {
            prev.push(l)
        } else {
            prev
        }
    }
}

/// The resolved children after at most `k` more passes from `resolved`,
/// stopping after a pass that resolves nothing new.
pub open spec fn passes(links: Seq<(u64, u64)>, with_transform: Seq<u64>, resolved: Seq<(u64, u64)>, k: nat) -> Seq<(u64, u64)>
    decreases k,
{
    if k == 0 {
        resolved
    } else {
        let next = pass(links, with_transform, resolved, links.len() as int);
        if next.len() == resolved.len() {
            next
        } else {
            passes(links, with_transform, next, (k - 1) as nat)
        }
    }
}

/// The (child, parent) links in the order their world transforms are computed.
pub open spec fn spec_propagation_order(links: Seq<(u64, u64)>, with_transform: Seq<u64>) -> Seq<(u64, u64)> {
    passes(links, with_transform, Seq::empty(), MAX_PASSES as nat)
}

/// Every entry is one of the links, no child comes twice, and each entry's
/// parent is a root or the child of an earlier entry.
pub open spec fn well_ordered(links: Seq<(u64, u64)>, with_transform: Seq<u64>, s: Seq<(u64, u64)>) -> bool {
    &&& forall|k: int| 0 <= k < s.len() ==> links.contains(#[trigger] s[k])
    &&& forall|i: int, j: int| 0 <= i < j < s.len() ==> (#[trigger] s[i]).0 != (#[trigger] s[j]).0
    &&& forall|k: int| 0 <= k < s.len() ==> is_root(links, with_transform, (#[trigger] s[k]).1)
        || child_listed(s.take(k), s[k].1)
}

/// No link is left that could still be resolved: every link's child is
/// resolved, or its parent is neither a root nor a resolved child.
pub open spec fn closed(links: Seq<(u64, u64)>, with_transform: Seq<u64>, s: Seq<(u64, u64)>) -> bool {
    forall|i: int| 0 <= i < links.len() ==> child_listed(s, (#[trigger] links[i]).0)
        || !(is_root(links, with_transform, links[i].1) || child_listed(s, links[i].1))
}

/// `e` is the child of a link whose chain of parents reaches a root within
/// `d` links.
pub open spec fn reaches_root(links: Seq<(u64, u64)>, with_transform: Seq<u64>, e: u64, d: nat) -> bool
    decreases d,
{
    d > 0 && exists|i: int| 0 <= i < links.len() && (#[trigger] links[i]).0 == e
        && (is_root(links, with_transform, links[i].1) || reaches_root(links, with_transform, links[i].1, (d - 1) as nat))
}

fn has_child(s: &Vec<(u64, u64)>, e: u64) -> (r: bool)
    ensures
        r == child_listed(s@, e),
{
    let mut i: usize = 0;
    while i < s.len()
        invariant
            0 <= i <= s.len(),
            forall|j: int| 0 <= j < i ==> s@[j].0 != e,
        decreases s.len() - i,
    {
        if s[i].0 == e {
            assert(s@[i as int].0 == e);
            return true;
        }
        i = i + 1;
    }
    false
}

fn has_id(s: &Vec<u64>, e: u64) -> (r: bool)
    ensures
        r == s@.contains(e),
{
    let mut i: usize = 0;
    while i < s.len()
        invariant
            0 <= i <= s.len(),
            forall|j: int| 0 <= j < i ==> s@[j] != e,
        decreases s.len() - i,
    {
        if s[i] == e {
            assert(s@[i as int] == e);
            return true;
        }
        i = i + 1;
    }
    false
}

/// The order in which children get their world transforms: `links` holds
/// the (child, parent) link of every child with a transform, and
/// `with_transform` every entity with a transform.
pub fn propagation_order(links: &Vec<(u64, u64)>, with_transform: &Vec<u64>) -> (order: Vec<(u64, u64)>)
    ensures
        order@ == spec_propagation_order(links@, with_transform@),
{
    let mut resolved: Vec<(u64, u64)> = Vec::new();
    let mut k: usize = 0;
    while k < MAX_PASSES
        invariant
            0 <= k <= MAX_PASSES,
            spec_propagation_order(links@, with_transform@)
                == passes(links@, with_transform@, resolved@, (MAX_PASSES - k) as nat),
        decreases MAX_PASSES - k,
    {
        let ghost start = resolved@;
        let before = resolved.len();
        let mut i: usize = 0;
        while i < links.len()
            invariant
                0 <= i <= links.len(),
                resolved@ == pass(links@, with_transform@, start, i as int),
            decreases links.len() - i,
        {
            let (c, p) = links[i];
            if !has_child(&resolved, c) {
                if (has_id(with_transform, p) && !has_child(links, p)) || has_child(&resolved, p) {
                    resolved.push((c, p));
                }
            }
            i = i + 1;
        }
        if resolved.len() == before {
            return resolved;
        }
        k = k + 1;
    }
    resolved
}

proof fn lemma_pass_well_ordered(links: Seq<(u64, u64)>, wt: Seq<u64>, start: Seq<(u64, u64)>, upto: int)
    requires
        well_ordered(links, wt, start),
        upto <= links.len(),
    ensures
        well_ordered(links, wt, pass(links, wt, start, upto)),
    decreases upto,
{
    if upto > 0 {
        lemma_pass_well_ordered(links, wt, start, upto - 1);
        let prev = pass(links, wt, start, upto - 1);
        let l = links[upto - 1];
        if !child_listed(prev, l.0) && (is_root(links, wt, l.1) || child_listed(prev, l.1)) {
            let s = prev.push(l);
            assert(links.contains(l)) by {
                assert(links[upto - 1] == l);
            }
            assert forall|k: int| 0 <= k < s.len() implies links.contains(#[trigger] s[k]) by {
                if k < prev.len() {
                    assert(s[k] == prev[k]);
                }
            }
            assert forall|i: int, j: int| 0 <= i < j < s.len() implies (#[trigger] s[i]).0 != (#[trigger] s[j]).0 by {
                if j == prev.len() {
                    assert(prev[i].0 == s[i].0);
                    if prev[i].0 == l.0 {
                        assert(child_listed(prev, l.0));
                    }
                } else {
                    assert(prev[i] == s[i] && prev[j] == s[j]);
                }
            }
            assert forall|k: int| 0 <= k < s.len() implies is_root(links, wt, (#[trigger] s[k]).1)
                || child_listed(s.take(k), s[k].1) by {
                if k < prev.len() {
                    assert(s.take(k) =~= prev.take(k));
                    assert(s[k] == prev[k]);
                } else {
                    assert(s.take(k) =~= prev);
                }
            }
        }
    }
}

proof fn lemma_passes_well_ordered(links: Seq<(u64, u64)>, wt: Seq<u64>, resolved: Seq<(u64, u64)>, k: nat)
    requires
        well_ordered(links, wt, resolved),
    ensures
        well_ordered(links, wt, passes(links, wt, resolved, k)),
    decreases k,
{
    if k > 0 {
        lemma_pass_well_ordered(links, wt, resolved, links.len() as int);
        let next = pass(links, wt, resolved, links.len() as int);
        if next.len() != resolved.len() {
            lemma_passes_well_ordered(links, wt, next, (k - 1) as nat);
        }
    }
}

proof fn lemma_pass_grows(links: Seq<(u64, u64)>, wt: Seq<u64>, start: Seq<(u64, u64)>, upto: int)
    ensures
        pass(links, wt, start, upto).len() >= start.len(),
    decreases upto,
{
    if upto > 0 {
        lemma_pass_grows(links, wt, start, upto - 1);
    }
}

proof fn lemma_pass_stuck(links: Seq<(u64, u64)>, wt: Seq<u64>, start: Seq<(u64, u64)>, upto: int)
    requires
        0 <= upto <= links.len(),
        pass(links, wt, start, upto).len() == start.len(),
    ensures
        pass(links, wt, start, upto) == start,
        forall|i: int| 0 <= i < upto ==> child_listed(start, (#[trigger] links[i]).0)
            || !(is_root(links, wt, links[i].1) || child_listed(start, links[i].1)),
    decreases upto,
{
    if upto > 0 {
        lemma_pass_grows(links, wt, start, upto - 1);
        lemma_pass_stuck(links, wt, start, upto - 1);
    }
}

proof fn lemma_passes_closed(links: Seq<(u64, u64)>, wt: Seq<u64>, resolved: Seq<(u64, u64)>, k: nat)
    ensures
        closed(links, wt, passes(links, wt, resolved, k))
            || passes(links, wt, resolved, k).len() >= resolved.len() + k,
    decreases k,
{
    if k > 0 {
        let next = pass(links, wt, resolved, links.len() as int);
        lemma_pass_grows(links, wt, resolved, links.len() as int);
        if next.len() == resolved.len() {
            lemma_pass_stuck(links, wt, resolved, links.len() as int);
        } else {
            lemma_passes_closed(links, wt, next, (k - 1) as nat);
        }
    }
}

/// Unless the passes ran out, every link that can be resolved is: each
/// child left out has a parent that is neither a root nor resolved.
pub proof fn law_propagation_order_complete(links: Seq<(u64, u64)>, with_transform: Seq<u64>)
    requires
        spec_propagation_order(links, with_transform).len() < MAX_PASSES,
    ensures
        closed(links, with_transform, spec_propagation_order(links, with_transform)),
{
    lemma_passes_closed(links, with_transform, Seq::empty(), MAX_PASSES as nat);
}

proof fn lemma_listed_push(s: Seq<(u64, u64)>, l: (u64, u64), e: u64)
    ensures
        child_listed(s.push(l), e) <==> (child_listed(s, e) || l.0 == e),
{
    if child_listed(s, e) {
        let i = choose|i: int| 0 <= i < s.len() && (#[trigger] s[i]).0 == e;
        assert(s.push(l)[i].0 == e);
    }
    if l.0 == e {
        assert(s.push(l)[s.len() as int].0 == e);
    }
    if child_listed(s.push(l), e) {
        let i = choose|i: int| 0 <= i < s.push(l).len() && (#[trigger] s.push(l)[i]).0 == e;
        if i < s.len() {
            assert(s[i].0 == e);
        }
    }
}

proof fn lemma_pass_monotone(links: Seq<(u64, u64)>, wt: Seq<u64>, start: Seq<(u64, u64)>, upto: int, e: u64)
    requires
        child_listed(start, e),
    ensures
        child_listed(pass(links, wt, start, upto), e),
    decreases upto,
{
    if upto > 0 {
        lemma_pass_monotone(links, wt, start, upto - 1, e);
        let prev = pass(links, wt, start, upto - 1);
        lemma_listed_push(prev, links[upto - 1], e);
    }
}

proof fn lemma_pass_resolves(links: Seq<(u64, u64)>, wt: Seq<u64>, start: Seq<(u64, u64)>, upto: int, i: int)
    requires
        0 <= i < upto <= links.len(),
        is_root(links, wt, links[i].1) || child_listed(start, links[i].1),
    ensures
        child_listed(pass(links, wt, start, upto), links[i].0),
    decreases upto,
{
    let prev = pass(links, wt, start, upto - 1);
    let l = links[upto - 1];
    if i < upto - 1 {
        lemma_pass_resolves(links, wt, start, upto - 1, i);
        lemma_listed_push(prev, l, links[i].0);
    } else {
        if child_listed(start, l.1) {
            lemma_pass_monotone(links, wt, start, upto - 1, l.1);
        }
        lemma_listed_push(prev, l, l.0);
    }
}

proof fn lemma_closed_reaches(links: Seq<(u64, u64)>, wt: Seq<u64>, s: Seq<(u64, u64)>, e: u64, d: nat)
    requires
        closed(links, wt, s),
        reaches_root(links, wt, e, d),
    ensures
        child_listed(s, e),
    decreases d,
{
    let i = choose|i: int| 0 <= i < links.len() && (#[trigger] links[i]).0 == e
        && (is_root(links, wt, links[i].1) || reaches_root(links, wt, links[i].1, (d - 1) as nat));
    if !is_root(links, wt, links[i].1) {
        lemma_closed_reaches(links, wt, s, links[i].1, (d - 1) as nat);
    }
}

proof fn lemma_passes_reach(links: Seq<(u64, u64)>, wt: Seq<u64>, res: Seq<(u64, u64)>, k: nat, j: nat)
    requires
        forall|e: u64| #[trigger] reaches_root(links, wt, e, j) ==> child_listed(res, e),
    ensures
        forall|e: u64| #[trigger] reaches_root(links, wt, e, j + k) ==> child_listed(passes(links, wt, res, k), e),
    decreases k,
{
    if k > 0 {
        let n = links.len() as int;
        let next = pass(links, wt, res, n);
        lemma_pass_grows(links, wt, res, n);
        if next.len() == res.len() {
            lemma_pass_stuck(links, wt, res, n);
            assert forall|e: u64| #[trigger] reaches_root(links, wt, e, j + k) implies child_listed(next, e) by {
                lemma_closed_reaches(links, wt, res, e, j + k);
            }
        } else {
            assert forall|e: u64| #[trigger] reaches_root(links, wt, e, j + 1) implies child_listed(next, e) by {
                let i = choose|i: int| 0 <= i < links.len() && (#[trigger] links[i]).0 == e
                    && (is_root(links, wt, links[i].1) || reaches_root(links, wt, links[i].1, j));
                lemma_pass_resolves(links, wt, res, n, i);
            }
            lemma_passes_reach(links, wt, next, (k - 1) as nat, j + 1);
            assert(j + 1 + (k - 1) == j + k);
        }
    }
}

/// Every child whose chain of parents reaches a root within `MAX_PASSES`
/// links gets its world transform.
pub proof fn law_propagation_reaches_depth(links: Seq<(u64, u64)>, with_transform: Seq<u64>, e: u64)
    requires
        reaches_root(links, with_transform, e, MAX_PASSES as nat),
    ensures
        child_listed(spec_propagation_order(links, with_transform), e),
{
    lemma_passes_reach(links, with_transform, Seq::empty(), MAX_PASSES as nat, 0);
    assert(0 + MAX_PASSES as nat == MAX_PASSES as nat);
}

/// Transforms are passed down in a sound order: every entry is one of the
/// links, each child gets its world transform once, and only from a root
/// or from a parent whose world transform was computed before it.
pub proof fn law_propagation_order_sound(links: Seq<(u64, u64)>, with_transform: Seq<u64>)
    ensures
        well_ordered(links, with_transform, spec_propagation_order(links, with_transform)),
{
    lemma_passes_well_ordered(links, with_transform, Seq::empty(), MAX_PASSES as nat);
}

} // verus!
