//! Removing every occurrence of a value from a list.
use vstd::prelude::*;

verus! {

/// `s` with every occurrence of `x` removed, keeping the order of the rest.
pub open spec fn without<T>(s: Seq<T>, x: T) -> Seq<T>
    decreases s.len(),
{
    if s.len() == 0 {
        s
    } else {
        let rest = without(s.drop_last(), x);
        if s.last() == x {
            rest
        } else {
            rest.push(s.last())
        }
    }
}

/// A list with an entry pushed contains exactly the old entries and the new one.
pub proof fn lemma_contains_push<T>(s: Seq<T>, e: T, y: T)
    ensures
        s.push(e).contains(y) <==> (s.contains(y) || e == y),
{
    if s.contains(y) {
        let k = choose|k: int| 0 <= k < s.len() && s[k] == y;
        assert(s.push(e)[k] == y);
    }
    if e == y {
        assert(s.push(e)[s.len() as int] == y);
    }
    if s.push(e).contains(y) {
        let k = choose|k: int| 0 <= k < s.push(e).len() && s.push(e)[k] == y;
        if k < s.len() {
            assert(s[k] == y);
        }
    }
}

/// Every entry left by `without` was in the list and differs from `x`.
pub proof fn lemma_without_contains<T>(s: Seq<T>, x: T, y: T)
    ensures
        without(s, x).contains(y) <==> (s.contains(y) && y != x),
    decreases s.len(),
{
    if s.len() > 0 {
        let d = s.drop_last();
        lemma_without_contains(d, x, y);
        assert(s =~= d.push(s.last()));
        lemma_contains_push(d, s.last(), y);
        if s.last() != x {
            lemma_contains_push(without(d, x), s.last(), y);
        }
    }
}

/// Removing every occurrence of one entry keeps a duplicate-free list duplicate-free.
pub proof fn lemma_without_no_duplicates<T>(s: Seq<T>, x: T)
    requires
        s.no_duplicates(),
    ensures
        without(s, x).no_duplicates(),
    decreases s.len(),
{
    if s.len() > 0 {
        assert(s.drop_last().no_duplicates());
        lemma_without_no_duplicates(s.drop_last(), x);
        if s.last() != x {
            lemma_without_contains(s.drop_last(), x, s.last());
            let r = without(s.drop_last(), x);
            assert(s =~= s.drop_last().push(s.last()));
            assert(!s.drop_last().contains(s.last())) by {
                if s.drop_last().contains(s.last()) {
                    let k = choose|k: int| 0 <= k < s.drop_last().len() && s.drop_last()[k] == s.last();
                    assert(s[k] == s[s.len() - 1]);
                }
            }
            assert forall|i: int, j: int| 0 <= i < j < r.push(s.last()).len() implies
                r.push(s.last())[i] != r.push(s.last())[j] by {
                if j == r.len() {
                    assert(r.contains(r[i]));
                }
            }
        }
    }
}

/// Removing entries never makes a list longer.
pub proof fn lemma_without_len<T>(s: Seq<T>, x: T)
    ensures
        without(s, x).len() <= s.len(),
    decreases s.len(),
{
    if s.len() > 0 {
        lemma_without_len(s.drop_last(), x);
    }
}

/// Remove every occurrence of `x` from `v`, keeping the order of the rest.
pub fn retain_without(v: &mut Vec<u64>, x: u64)
    ensures
        final(v)@ == without(old(v)@, x),
{
    let ghost orig = v@;
    let mut kept: Vec<u64> = Vec::new();
    let mut i: usize = 0;
    while i < v.len()
        invariant
            0 <= i <= v.len(),
            v@ == orig,
            kept@ == without(orig.take(i as int), x),
        decreases v.len() - i,
    {
        assert(orig.take(i + 1).drop_last() =~= orig.take(i as int));
        if v[i] != x {
            kept.push(v[i]);
        }
        i = i + 1;
    }
    assert(orig.take(v.len() as int) =~= orig);
    *v = kept;
}

} // verus!
