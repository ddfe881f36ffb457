//! The order of the editor's entity list.
//!
//! The list keeps the order the user gave it: when the world changes, the
//! entities still alive keep their places and new ones are appended; moving
//! an entry up or down swaps it with its neighbour.
use vstd::prelude::*;

verus! {

/// The entries of `s` that `keep` lists, in order.
pub open spec fn only_in(s: Seq<u64>, keep: Seq<u64>) -> Seq<u64>
    decreases s.len(),
{
    if s.len() == 0 {
        s
    } else {
        let rest = only_in(s.drop_last(), keep);
        if keep.contains(s.last()) {
            rest.push(s.last())
        } else {
            rest
        }
    }
}

/// The entries of `s` that `skip` does not list, in order.
pub open spec fn not_in(s: Seq<u64>, skip: Seq<u64>) -> Seq<u64>
    decreases s.len(),
{
    if s.len() == 0 {
        s
    } else {
        let rest = not_in(s.drop_last(), skip);
        if skip.contains(s.last()) {
            rest
        } else {
            rest.push(s.last())
        }
    }
}

/// The list order after the world changed: the entries of `order` still
/// among the `live` entities, in their order, then the live entities that
/// `order` did not have, in the world's order.
pub open spec fn spec_reconcile(order: Seq<u64>, live: Seq<u64>) -> Seq<u64> {
    only_in(order, live) + not_in(live, order)
}

/// `s` with the entries at `i` and `j` swapped.
pub open spec fn swapped(s: Seq<u64>, i: int, j: int) -> Seq<u64> {
    s.update(i, s[j]).update(j, s[i])
}

fn contains_id(v: &Vec<u64>, x: u64) -> (r: bool)
    ensures
        r == v@.contains(x),
{
    let mut i: usize = 0;
    while i < v.len()
        invariant
            0 <= i <= v.len(),
            forall|j: int| 0 <= j < i ==> v@[j] != x,
        decreases v.len() - i,
    {
        if v[i] == x {
            assert(v@[i as int] == x);
            return true;
        }
        i = i + 1;
    }
    false
}

/// The new order of the entity list, given its old order and the entities
/// now alive (in the world's order).
pub fn reconcile_order(order: &Vec<u64>, live: &Vec<u64>) -> (r: Vec<u64>)
    ensures
        r@ == spec_reconcile(order@, live@),
{
    let mut r: Vec<u64> = Vec::new();
    let mut i: usize = 0;
    while i < order.len()
        invariant
            0 <= i <= order.len(),
            r@ == only_in(order@.take(i as int), live@),
        decreases order.len() - i,
    {
        assert(order@.take(i + 1).drop_last() =~= order@.take(i as int));
        if contains_id(live, order[i]) {
            r.push(order[i]);
        }
        i = i + 1;
    }
    assert(order@.take(order.len() as int) =~= order@);
    let ghost kept = r@;
    let mut j: usize = 0;
    while j < live.len()
        invariant
            0 <= j <= live.len(),
            r@ == kept + not_in(live@.take(j as int), order@),
        decreases live.len() - j,
    {
        assert(live@.take(j + 1).drop_last() =~= live@.take(j as int));
        if !contains_id(order, live[j]) {
            r.push(live[j]);
            assert(r@ =~= kept + not_in(live@.take(j + 1), order@));
        }
        j = j + 1;
    }
    assert(live@.take(live.len() as int) =~= live@);
    r
}

/// Move the entry at `idx` one place up (towards the front). Returns whether
/// it moved: the first entry and a position past the end stay put.
pub fn move_up(order: &mut Vec<u64>, idx: usize) -> (moved: bool)
    ensures
        moved == (0 < idx < old(order)@.len()),
        moved ==> final(order)@ == swapped(old(order)@, idx as int, idx - 1),
        !moved ==> final(order)@ == old(order)@,
{
    if idx == 0 || idx >= order.len() {
        return false;
    }
    let a = order[idx];
    let b = order[idx - 1];
    order.set(idx, b);
    order.set(idx - 1, a);
    true
}

/// Move the entry at `idx` one place down (towards the back). Returns
/// whether it moved: the last entry and a position past the end stay put.
pub fn move_down(order: &mut Vec<u64>, idx: usize) -> (moved: bool)
    ensures
        moved == (idx + 1 < old(order)@.len()),
        moved ==> final(order)@ == swapped(old(order)@, idx as int, idx + 1),
        !moved ==> final(order)@ == old(order)@,
{
    if idx >= order.len() || idx + 1 >= order.len() {
        return false;
    }
    let a = order[idx];
    let b = order[idx + 1];
    order.set(idx, b);
    order.set(idx + 1, a);
    true
}

proof fn lemma_only_in_contains(s: Seq<u64>, keep: Seq<u64>, y: u64)
    ensures
        only_in(s, keep).contains(y) <==> (s.contains(y) && keep.contains(y)),
    decreases s.len(),
{
    if s.len() > 0 {
        let d = s.drop_last();
        lemma_only_in_contains(d, keep, y);
        assert(s =~= d.push(s.last()));
        crate::lists::lemma_contains_push(d, s.last(), y);
        crate::lists::lemma_contains_push(only_in(d, keep), s.last(), y);
    }
}

proof fn lemma_not_in_contains(s: Seq<u64>, skip: Seq<u64>, y: u64)
    ensures
        not_in(s, skip).contains(y) <==> (s.contains(y) && !skip.contains(y)),
    decreases s.len(),
{
    if s.len() > 0 {
        let d = s.drop_last();
        lemma_not_in_contains(d, skip, y);
        assert(s =~= d.push(s.last()));
        crate::lists::lemma_contains_push(d, s.last(), y);
        crate::lists::lemma_contains_push(not_in(d, skip), s.last(), y);
    }
}

proof fn lemma_push_no_duplicates(s: Seq<u64>, x: u64)
    requires
        s.no_duplicates(),
        !s.contains(x),
    ensures
        s.push(x).no_duplicates(),
{
    assert forall|i: int, j: int| 0 <= i < j < s.push(x).len() implies s.push(x)[i] != s.push(x)[j] by {
        if j == s.len() {
            assert(s.contains(s[i]));
        }
    }
}

proof fn lemma_last_not_in_front(s: Seq<u64>)
    requires
        s.no_duplicates(),
        s.len() > 0,
    ensures
        !s.drop_last().contains(s.last()),
        s.drop_last().no_duplicates(),
{
    if s.drop_last().contains(s.last()) {
        let k = choose|k: int| 0 <= k < s.drop_last().len() && s.drop_last()[k] == s.last();
        assert(s[k] == s[s.len() - 1]);
    }
}

proof fn lemma_only_in_no_duplicates(s: Seq<u64>, keep: Seq<u64>)
    requires
        s.no_duplicates(),
    ensures
        only_in(s, keep).no_duplicates(),
    decreases s.len(),
{
    if s.len() > 0 {
        lemma_last_not_in_front(s);
        lemma_only_in_no_duplicates(s.drop_last(), keep);
        lemma_only_in_contains(s.drop_last(), keep, s.last());
        if keep.contains(s.last()) {
            lemma_push_no_duplicates(only_in(s.drop_last(), keep), s.last());
        }
    }
}

proof fn lemma_not_in_no_duplicates(s: Seq<u64>, skip: Seq<u64>)
    requires
        s.no_duplicates(),
    ensures
        not_in(s, skip).no_duplicates(),
    decreases s.len(),
{
    if s.len() > 0 {
        lemma_last_not_in_front(s);
        lemma_not_in_no_duplicates(s.drop_last(), skip);
        lemma_not_in_contains(s.drop_last(), skip, s.last());
        if !skip.contains(s.last()) {
            lemma_push_no_duplicates(not_in(s.drop_last(), skip), s.last());
        }
    }
}

proof fn lemma_only_in_all(s: Seq<u64>, keep: Seq<u64>)
    requires
        forall|x: u64| s.contains(x) ==> keep.contains(x),
    ensures
        only_in(s, keep) == s,
    decreases s.len(),
{
    if s.len() > 0 {
        assert(s.contains(s[s.len() - 1]));
        let d = s.drop_last();
        assert forall|x: u64| d.contains(x) implies keep.contains(x) by {
            let k = choose|k: int| 0 <= k < d.len() && d[k] == x;
            assert(s[k] == x);
        }
        lemma_only_in_all(d, keep);
        assert(s =~= d.push(s.last()));
    }
}

proof fn lemma_not_in_none(s: Seq<u64>, skip: Seq<u64>)
    requires
        forall|x: u64| s.contains(x) ==> skip.contains(x),
    ensures
        not_in(s, skip) == Seq::<u64>::empty(),
    decreases s.len(),
{
    if s.len() > 0 {
        assert(s.contains(s[s.len() - 1]));
        let d = s.drop_last();
        assert forall|x: u64| d.contains(x) implies skip.contains(x) by {
            let k = choose|k: int| 0 <= k < d.len() && d[k] == x;
            assert(s[k] == x);
        }
        lemma_not_in_none(d, skip);
    }
}

/// After the world changes, the entity list holds each live entity exactly
/// once and nothing else.
pub proof fn law_reconcile_lists_live(order: Seq<u64>, live: Seq<u64>)
    requires
        order.no_duplicates(),
        live.no_duplicates(),
    ensures
        spec_reconcile(order, live).no_duplicates(),
        forall|x: u64| #[trigger] spec_reconcile(order, live).contains(x) <==> live.contains(x),
{
    let a = only_in(order, live);
    let b = not_in(live, order);
    lemma_only_in_no_duplicates(order, live);
    lemma_not_in_no_duplicates(live, order);
    assert forall|x: u64| #[trigger] (a + b).contains(x) <==> live.contains(x) by {
        lemma_only_in_contains(order, live, x);
        lemma_not_in_contains(live, order, x);
        if (a + b).contains(x) {
            let k = choose|k: int| 0 <= k < (a + b).len() && (a + b)[k] == x;
            if k < a.len() {
                assert(a[k] == x);
            } else {
                assert(b[k - a.len()] == x);
            }
        }
        if live.contains(x) {
            if order.contains(x) {
                let k = choose|k: int| 0 <= k < a.len() && a[k] == x;
                assert((a + b)[k] == x);
            } else {
                let k = choose|k: int| 0 <= k < b.len() && b[k] == x;
                assert((a + b)[a.len() + k] == x);
            }
        }
    }
    assert forall|i: int, j: int| 0 <= i < j < (a + b).len() implies (a + b)[i] != (a + b)[j] by {
        if i < a.len() && j >= a.len() {
            let x = a[i];
            assert(a.contains(x));
            assert(b.contains(b[j - a.len()]));
            lemma_only_in_contains(order, live, x);
            lemma_not_in_contains(live, order, b[j - a.len()]);
        } else if i < a.len() {
            assert(a[i] != a[j]);
        } else {
            assert(b[i - a.len()] != b[j - a.len()]);
        }
    }
}

/// When the live entities are the ones the list already holds, the list
/// keeps its order: a reordering survives the list being brought up to date.
pub proof fn law_reconcile_keeps_order(order: Seq<u64>, live: Seq<u64>)
    requires
        forall|x: u64| order.contains(x) <==> live.contains(x),
    ensures
        spec_reconcile(order, live) == order,
{
    lemma_only_in_all(order, live);
    lemma_not_in_none(live, order);
    assert(order + Seq::<u64>::empty() =~= order);
}

/// Moving an entry up and then moving it back down restores the list.
pub proof fn law_move_up_then_down(order: Seq<u64>, idx: int)
    requires
        0 < idx < order.len(),
    ensures
        swapped(swapped(order, idx, idx - 1), idx - 1, idx) == order,
{
    assert(swapped(swapped(order, idx, idx - 1), idx - 1, idx) =~= order);
}

} // verus!
