//! Sprite batching: sprites queued during a frame are grouped by texture so
//! that each texture is drawn with one vertex buffer.
use vstd::prelude::*;

verus! {

/// The distinct textures among the first `upto` draws, in order of first use.
pub open spec fn texture_order<V>(draws: Seq<(u64, [V; 4])>, upto: int) -> Seq<u64>
    decreases upto,
{
    if upto <= 0 {
        Seq::empty()
    } else {
        let prev = texture_order(draws, upto - 1);
        let t = draws[upto - 1].0;
        if prev.contains(t) { prev } else { prev.push(t) }
    }
}

/// The vertices of the first `upto` draws that use texture `t`, in draw order.
pub open spec fn texture_vertices<V>(draws: Seq<(u64, [V; 4])>, t: u64, upto: int) -> Seq<V>
    decreases upto,
{
    if upto <= 0 {
        Seq::empty()
    } else {
        let prev = texture_vertices(draws, t, upto - 1);
        if draws[upto - 1].0 == t { prev + draws[upto - 1].1@ } else { prev }
    }
}

/// Sprites queued for drawing.
#[derive(Debug)]
pub struct SpriteBatcher<V> {
    pending: Vec<(u64, [V; 4])>,
    dirty: bool,
}

impl<V: Copy> SpriteBatcher<V> {
    /// Nothing queued.
    pub fn new() -> (b: Self)
        ensures
            b.pending_view() == Seq::<(u64, [V; 4])>::empty(),
            !b.is_dirty_view(),
    {
        SpriteBatcher { pending: Vec::new(), dirty: false }
    }

    /// The queued sprites, in order.
    pub closed spec fn pending_view(&self) -> Seq<(u64, [V; 4])> {
        self.pending@
    }

    /// Whether sprites were queued since the last flush.
    pub closed spec fn is_dirty_view(&self) -> bool {
        self.dirty
    }

    /// Queue a sprite (four vertices) drawn with texture `texture_id`.
    pub fn draw_sprite(&mut self, texture_id: u64, vertices: [V; 4])
        ensures
            final(self).pending_view() == old(self).pending_view().push((texture_id, vertices)),
            final(self).is_dirty_view(),
    {
        self.pending.push((texture_id, vertices));
        self.dirty = true;
    }

    /// Group the queued sprites by texture, in order of first use, each
    /// texture with the vertices of its sprites in draw order; the queue is
    /// emptied. `None` when nothing was queued since the last flush.
    pub fn flush(&mut self) -> (groups: Option<Vec<(u64, Vec<V>)>>)
        ensures
            !old(self).is_dirty_view() ==> groups is None && final(self).pending_view() == old(self).pending_view(),
            old(self).is_dirty_view() ==> groups is Some && final(self).pending_view() == Seq::<(u64, [V; 4])>::empty(),
            !final(self).is_dirty_view(),
            groups matches Some(g) ==> g@.len() == texture_order(old(self).pending_view(), old(self).pending_view().len() as int).len(),
            groups matches Some(g) ==> forall|k: int| 0 <= k < g@.len() ==> (#[trigger] g@[k]).0
                == texture_order(old(self).pending_view(), old(self).pending_view().len() as int)[k]
                && g@[k].1@ == texture_vertices(old(self).pending_view(), g@[k].0, old(self).pending_view().len() as int),
    {
        if !self.dirty {
            return None;
        }
        let mut pending: Vec<(u64, [V; 4])> = Vec::new();
        std::mem::swap(&mut pending, &mut self.pending);
        self.dirty = false;
        Some(group_by_texture(&pending))
    }
}

/// The position of texture `t` among the groups.
fn find_group<V>(groups: &Vec<(u64, Vec<V>)>, t: u64) -> (r: Option<usize>)
    ensures
        r matches Some(k) ==> k < groups.len() && groups@[k as int].0 == t,
        r is None ==> forall|k: int| 0 <= k < groups.len() ==> (#[trigger] groups@[k]).0 != t,
{
    let mut k: usize = 0;
    while k < groups.len()
        invariant
            0 <= k <= groups.len(),
            forall|j: int| 0 <= j < k ==> (#[trigger] groups@[j]).0 != t,
        decreases groups.len() - k,
    {
        if groups[k].0 == t {
            return Some(k);
        }
        k = k + 1;
    }
    None
}

/// Group draws by texture, in order of first use, each texture with the
/// vertices of its draws in order.
pub fn group_by_texture<V: Copy>(draws: &Vec<(u64, [V; 4])>) -> (groups: Vec<(u64, Vec<V>)>)
    ensures
        groups@.len() == texture_order(draws@, draws@.len() as int).len(),
        forall|k: int| 0 <= k < groups@.len() ==> (#[trigger] groups@[k]).0 == texture_order(draws@, draws@.len() as int)[k]
            && groups@[k].1@ == texture_vertices(draws@, groups@[k].0, draws@.len() as int),
{
    let mut groups: Vec<(u64, Vec<V>)> = Vec::new();
    let mut i: usize = 0;
    while i < draws.len()
        invariant
            0 <= i <= draws.len(),
            groups@.len() == texture_order(draws@, i as int).len(),
            forall|k: int| 0 <= k < groups@.len() ==> (#[trigger] groups@[k]).0 == texture_order(draws@, i as int)[k]
                && groups@[k].1@ == texture_vertices(draws@, groups@[k].0, i as int),
        decreases draws.len() - i,
    {
        let t = draws[i].0;
        let verts = draws[i].1;
        let ghost order = texture_order(draws@, i as int);
        let ghost before = groups@;
        match find_group(&groups, t) {
            Some(k) => {
                assert(order.contains(t)) by {
                    assert(order[k as int] == t);
                }
                let (gt, mut list) = groups.remove(k);
                let mut j: usize = 0;
                let ghost start = list@;
                while j < 4
                    invariant
                        0 <= j <= 4,
                        list@ == start + verts@.take(j as int),
                    decreases 4 - j,
                {
                    list.push(verts[j]);
                    assert(verts@.take(j + 1) =~= verts@.take(j as int).push(verts@[j as int]));
                    assert(list@ =~= start + verts@.take(j + 1));
                    j = j + 1;
                }
                assert(verts@.take(4) =~= verts@);
                groups.insert(k, (gt, list));
                assert forall|m: int| 0 <= m < groups@.len() implies (#[trigger] groups@[m]).0
                    == texture_order(draws@, i + 1)[m] && groups@[m].1@ == texture_vertices(draws@, groups@[m].0, i + 1) by {
                    if m != k {
                        assert(groups@[m] == before[m]);
                        assert(before[m].0 != t) by {
                            if before[m].0 == t {
                                lemma_order_distinct(draws@, i as int, m, k as int);
                            }
                        }
                    }
                }
            },
            None => {
                assert(!order.contains(t)) by {
                    if order.contains(t) {
                        let m = choose|m: int| 0 <= m < order.len() && order[m] == t;
                        assert(groups@[m].0 == t);
                    }
                }
                let mut list: Vec<V> = Vec::new();
                let mut j: usize = 0;
                while j < 4
                    invariant
                        0 <= j <= 4,
                        list@ == verts@.take(j as int),
                    decreases 4 - j,
                {
                    list.push(verts[j]);
                    assert(list@ =~= verts@.take(j + 1));
                    j = j + 1;
                }
                assert(verts@.take(4) =~= verts@);
                groups.push((t, list));
                proof {
                    lemma_vertices_absent(draws@, t, i as int);
                }
                assert(Seq::<V>::empty() + verts@ =~= verts@);
                assert forall|m: int| 0 <= m < groups@.len() implies (#[trigger] groups@[m]).0
                    == texture_order(draws@, i + 1)[m] && groups@[m].1@ == texture_vertices(draws@, groups@[m].0, i + 1) by {
                    if m < before.len() {
                        assert(groups@[m] == before[m]);
                        assert(before[m].0 != t);
                    }
                }
            },
        }
        i = i + 1;
    }
    groups
}

/// The textures in order of first use are distinct.
proof fn lemma_order_distinct<V>(draws: Seq<(u64, [V; 4])>, upto: int, a: int, b: int)
    requires
        0 <= upto,
        0 <= a < texture_order(draws, upto).len(),
        0 <= b < texture_order(draws, upto).len(),
        a != b,
    ensures
        texture_order(draws, upto)[a] != texture_order(draws, upto)[b],
    decreases upto,
{
    if upto > 0 {
        let prev = texture_order(draws, upto - 1);
        let t = draws[upto - 1].0;
        if prev.contains(t) {
            lemma_order_distinct(draws, upto - 1, a, b);
        } else {
            if a < prev.len() && b < prev.len() {
                lemma_order_distinct(draws, upto - 1, a, b);
            } else if a == prev.len() {
                assert(prev.contains(prev[b]));
            } else {
                assert(prev.contains(prev[a]));
            }
        }
    }
}

/// A texture not yet used by the first `upto` draws has no vertices there.
proof fn lemma_vertices_absent<V>(draws: Seq<(u64, [V; 4])>, t: u64, upto: int)
    requires
        0 <= upto,
        !texture_order(draws, upto).contains(t),
    ensures
        texture_vertices(draws, t, upto) == Seq::<V>::empty(),
    decreases upto,
{
    if upto > 0 {
        let prev = texture_order(draws, upto - 1);
        let u = draws[upto - 1].0;
        if !prev.contains(u) {
            crate::lists::lemma_contains_push(prev, u, t);
        }
        assert(!prev.contains(t)) by {
            if prev.contains(t) && !prev.contains(u) {
                crate::lists::lemma_contains_push(prev, u, t);
            }
        }
        if u == t {
            if prev.contains(u) {
                assert(false);
            } else {
                crate::lists::lemma_contains_push(prev, u, t);
                assert(false);
            }
        }
        lemma_vertices_absent(draws, t, upto - 1);
    }
}

/// How many of the first `upto` draws use texture `t`.
pub open spec fn draws_using<V>(draws: Seq<(u64, [V; 4])>, t: u64, upto: int) -> nat
    decreases upto,
{
    if upto <= 0 {
        0
    } else if draws[upto - 1].0 == t {
        draws_using(draws, t, upto - 1) + 1
    } else {
        draws_using(draws, t, upto - 1)
    }
}

proof fn lemma_using_monotone<V>(draws: Seq<(u64, [V; 4])>, t: u64, a: int, b: int)
    requires
        0 <= a <= b,
    ensures
        draws_using(draws, t, a) <= draws_using(draws, t, b),
    decreases b - a,
{
    if a < b {
        lemma_using_monotone(draws, t, a, b - 1);
    }
}

/// Every queued sprite is drawn, in its texture's batch, once: the batch of
/// texture `t` holds four vertices for each draw that uses `t`, and the
/// vertices of the `k`-th such draw sit at positions `4k` to `4k + 3`.
pub proof fn law_every_draw_batched<V>(draws: Seq<(u64, [V; 4])>, t: u64, upto: int)
    requires
        0 <= upto <= draws.len(),
    ensures
        texture_vertices(draws, t, upto).len() == 4 * draws_using(draws, t, upto),
        forall|i: int| 0 <= i < upto && (#[trigger] draws[i]).0 == t ==> texture_vertices(draws, t, upto).subrange(
            4 * (draws_using(draws, t, i) as int),
            4 * (draws_using(draws, t, i) as int) + 4,
        ) == draws[i].1@,
    decreases upto,
{
    if upto > 0 {
        law_every_draw_batched(draws, t, upto - 1);
        let prev = texture_vertices(draws, t, upto - 1);
        let cur = texture_vertices(draws, t, upto);
        assert forall|i: int| 0 <= i < upto && (#[trigger] draws[i]).0 == t implies cur.subrange(
            4 * (draws_using(draws, t, i) as int),
            4 * (draws_using(draws, t, i) as int) + 4,
        ) == draws[i].1@ by {
            let k = draws_using(draws, t, i) as int;
            if i < upto - 1 {
                lemma_using_monotone(draws, t, i + 1, upto - 1);
                assert(cur.subrange(4 * k, 4 * k + 4) =~= prev.subrange(4 * k, 4 * k + 4));
            } else {
                assert(cur == prev + draws[i].1@);
                assert(cur.subrange(4 * k, 4 * k + 4) =~= draws[i].1@);
            }
        }
    }
}

/// Every texture that some draw uses gets a batch, and every batch's
/// texture is used by some draw.
pub proof fn law_every_texture_batched<V>(draws: Seq<(u64, [V; 4])>, upto: int)
    requires
        0 <= upto <= draws.len(),
    ensures
        forall|i: int| 0 <= i < upto ==> texture_order(draws, upto).contains(#[trigger] draws[i].0),
        forall|t: u64| #[trigger] texture_order(draws, upto).contains(t) ==> exists|i: int| 0 <= i < upto && draws[i].0 == t,
    decreases upto,
{
    if upto > 0 {
        law_every_texture_batched(draws, upto - 1);
        let prev = texture_order(draws, upto - 1);
        let u = draws[upto - 1].0;
        assert forall|i: int| 0 <= i < upto implies texture_order(draws, upto).contains(#[trigger] draws[i].0) by {
            crate::lists::lemma_contains_push(prev, u, draws[i].0);
        }
        assert forall|t: u64| #[trigger] texture_order(draws, upto).contains(t) implies exists|i: int| 0 <= i < upto && draws[i].0 == t by {
            crate::lists::lemma_contains_push(prev, u, t);
            if prev.contains(t) {
                let i = choose|i: int| 0 <= i < upto - 1 && draws[i].0 == t;
                assert(0 <= i < upto && draws[i].0 == t);
            } else {
                assert(draws[upto - 1].0 == t);
            }
        }
    }
}

/// Each texture gets one batch: the textures of the batches are distinct.
pub proof fn law_one_batch_per_texture<V>(draws: Seq<(u64, [V; 4])>, upto: int)
    requires
        0 <= upto,
    ensures
        texture_order(draws, upto).no_duplicates(),
{
    assert forall|a: int, b: int| 0 <= a < b < texture_order(draws, upto).len()
        implies texture_order(draws, upto)[a] != texture_order(draws, upto)[b] by {
        lemma_order_distinct(draws, upto, a, b);
    }
}

} // verus!
