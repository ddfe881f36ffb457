//! The editor's record of loaded textures: the ids it hands out, the file
//! each was loaded from, and the textures imported into the asset browser by
//! name.
use vstd::prelude::*;
use crate::assets::paths::{paths_match, same_path};

verus! {

/// The loaded textures, as the editor tracks them.
#[derive(Debug)]
pub struct TextureCache {
    imported: Vec<(u64, String)>,
    paths: Vec<(u64, String)>,
    next_tex: u64,
}

/// The abstract content of a [`TextureCache`]: the imported textures (id and
/// name) and the loaded files (id and path), in the order they were added,
/// and the id the next texture gets.
pub struct TextureCacheView {
    pub imported: Seq<(u64, Seq<char>)>,
    pub paths: Seq<(u64, Seq<char>)>,
    pub next_tex: u64,
}

/// Views of a list of ids with texts.
pub open spec fn pairs_view(v: Seq<(u64, String)>) -> Seq<(u64, Seq<char>)> {
    v.map_values(|p: (u64, String)| (p.0, p.1@))
}

impl View for TextureCache {
    type V = TextureCacheView;

    closed spec fn view(&self) -> TextureCacheView {
        TextureCacheView { imported: pairs_view(self.imported@), paths: pairs_view(self.paths@), next_tex: self.next_tex }
    }
}

/// The id of the first entry named `name`.
pub open spec fn first_named(s: Seq<(u64, Seq<char>)>, name: Seq<char>) -> Option<u64>
    decreases s.len(),
{
    if s.len() == 0 {
        None
    } else {
        match first_named(s.drop_last(), name) {
            Some(id) => Some(id),
            None => if s.last().1 == name { Some(s.last().0) } else { None },
        }
    }
}

/// The id of the first file whose path names the same location as `path`.
pub open spec fn first_at_path(s: Seq<(u64, Seq<char>)>, path: Seq<char>) -> Option<u64>
    decreases s.len(),
{
    if s.len() == 0 {
        None
    } else {
        match first_at_path(s.drop_last(), path) {
            Some(id) => Some(id),
            None => if paths_match(s.last().1, path) { Some(s.last().0) } else { None },
        }
    }
}

/// Every id handed out lies below the next id.
pub open spec fn ids_below_next(v: TextureCacheView) -> bool {
    &&& forall|i: int| 0 <= i < v.imported.len() ==> (#[trigger] v.imported[i]).0 < v.next_tex
    &&& forall|i: int| 0 <= i < v.paths.len() ==> (#[trigger] v.paths[i]).0 < v.next_tex
}

/// A texture already loaded under `name` or from `path`, and the cache
/// afterwards: a texture found by name is returned as it is; one found only
/// by its file is recorded under `name` as imported.
pub open spec fn spec_cached(v: TextureCacheView, name: Seq<char>, path: Seq<char>) -> (TextureCacheView, Option<u64>) {
    match first_named(v.imported, name) {
        Some(id) => (v, Some(id)),
        None => match first_at_path(v.paths, path) {
            Some(id) => (
                TextureCacheView { imported: v.imported.push((id, name)), paths: v.paths, next_tex: v.next_tex },
                Some(id),
            ),
            None => (v, None),
        },
    }
}

fn find_named(s: &Vec<(u64, String)>, name: &str) -> (r: Option<u64>)
    ensures
        r == first_named(pairs_view(s@), name@),
{
    let ghost sv = pairs_view(s@);
    let wanted = String::from_str(name);
    let mut i: usize = 0;
    while i < s.len()
        invariant
            0 <= i <= s.len(),
            sv == pairs_view(s@),
            wanted@ == name@,
            first_named(sv.take(i as int), name@) is None,
        decreases s.len() - i,
    {
        assert(sv.take(i + 1).drop_last() =~= sv.take(i as int));
        let ghost si = sv[i as int];
        if s[i].1 == wanted {
            assert(si.1 == name@);
            assert(sv.take(s.len() as int) =~= sv);
            proof { lemma_first_named_prefix(sv, name@, i + 1); }
            return Some(s[i].0);
        }
        i = i + 1;
    }
    assert(sv.take(s.len() as int) =~= sv);
    None
}

proof fn lemma_first_named_prefix(s: Seq<(u64, Seq<char>)>, name: Seq<char>, k: int)
    requires
        0 <= k <= s.len(),
        first_named(s.take(k), name) is Some,
    ensures
        first_named(s, name) == first_named(s.take(k), name),
    decreases s.len() - k,
{
    if k < s.len() {
        assert(s.take(k + 1).drop_last() =~= s.take(k));
        lemma_first_named_prefix(s, name, k + 1);
    } else {
        assert(s.take(k) =~= s);
    }
}

proof fn lemma_first_at_path_prefix(s: Seq<(u64, Seq<char>)>, path: Seq<char>, k: int)
    requires
        0 <= k <= s.len(),
        first_at_path(s.take(k), path) is Some,
    ensures
        first_at_path(s, path) == first_at_path(s.take(k), path),
    decreases s.len() - k,
{
    if k < s.len() {
        assert(s.take(k + 1).drop_last() =~= s.take(k));
        lemma_first_at_path_prefix(s, path, k + 1);
    } else {
        assert(s.take(k) =~= s);
    }
}

fn find_at_path(s: &Vec<(u64, String)>, path: &str) -> (r: Option<u64>)
    ensures
        r == first_at_path(pairs_view(s@), path@),
{
    let ghost sv = pairs_view(s@);
    let mut i: usize = 0;
    while i < s.len()
        invariant
            0 <= i <= s.len(),
            sv == pairs_view(s@),
            first_at_path(sv.take(i as int), path@) is None,
        decreases s.len() - i,
    {
        assert(sv.take(i + 1).drop_last() =~= sv.take(i as int));
        let ghost si = sv[i as int];
        if same_path(s[i].1.as_str(), path) {
            assert(paths_match(si.1, path@));
            proof { lemma_first_at_path_prefix(sv, path@, i + 1); }
            return Some(s[i].0);
        }
        i = i + 1;
    }
    assert(sv.take(s.len() as int) =~= sv);
    None
}

impl TextureCache {
    /// No textures; the first gets id 1.
    pub fn new() -> (c: Self)
        ensures
            c@.imported == Seq::<(u64, Seq<char>)>::empty(),
            c@.paths == Seq::<(u64, Seq<char>)>::empty(),
            c@.next_tex == 1,
            ids_below_next(c@),
    {
        let c = TextureCache { imported: Vec::new(), paths: Vec::new(), next_tex: 1 };
        assert(c@.imported =~= Seq::<(u64, Seq<char>)>::empty());
        assert(c@.paths =~= Seq::<(u64, Seq<char>)>::empty());
        c
    }

    /// The texture already loaded under `name` or from `path`, if any (one
    /// found only by its file is recorded as imported under `name`).
    pub fn cached(&mut self, name: &str, path: &str) -> (r: Option<u64>)
        ensures
            (final(self)@, r) == spec_cached(old(self)@, name@, path@),
            ids_below_next(old(self)@) ==> ids_below_next(final(self)@),
    {
        match find_named(&self.imported, name) {
            Some(id) => Some(id),
            None => match find_at_path(&self.paths, path) {
                Some(id) => {
                    proof {
                        lemma_found_below(old(self)@.paths, path@);
                    }
                    let ghost before = self.imported@;
                    let ghost v0 = old(self)@;
                    self.imported.push((id, String::from_str(name)));
                    assert(pairs_view(self.imported@) =~= pairs_view(before).push((id, name@)));
                    proof {
                        if ids_below_next(v0) {
                            let i = choose|i: int| 0 <= i < v0.paths.len() && (#[trigger] v0.paths[i]).0 == id;
                            assert(v0.paths[i].0 < v0.next_tex);
                            let v1 = self@;
                            assert forall|k: int| 0 <= k < v1.imported.len() implies (#[trigger] v1.imported[k]).0 < v1.next_tex by {
                                if k < v0.imported.len() {
                                    assert(v1.imported[k] == v0.imported[k]);
                                }
                            }
                        }
                    }
                    Some(id)
                },
                None => None,
            },
        }
    }

    /// Hand out the next texture id, for a texture loaded from `path`.
    pub fn allocate(&mut self, path: String) -> (id: u64)
        requires
            old(self)@.next_tex < u64::MAX,
        ensures
            id == old(self)@.next_tex,
            final(self)@.next_tex == old(self)@.next_tex + 1,
            final(self)@.paths == old(self)@.paths.push((id, path@)),
            final(self)@.imported == old(self)@.imported,
            ids_below_next(old(self)@) ==> ids_below_next(final(self)@),
    {
        let id = self.next_tex;
        self.next_tex = self.next_tex + 1;
        let ghost before = self.paths@;
        let ghost v0 = old(self)@;
        self.paths.push((id, path));
        assert(pairs_view(self.paths@) =~= pairs_view(before).push((id, self.paths@.last().1@)));
        proof {
            let v1 = self@;
            if ids_below_next(v0) {
                assert forall|k: int| 0 <= k < v1.paths.len() implies (#[trigger] v1.paths[k]).0 < v1.next_tex by {
                    if k < v0.paths.len() {
                        assert(v1.paths[k] == v0.paths[k]);
                    }
                }
                assert forall|k: int| 0 <= k < v1.imported.len() implies (#[trigger] v1.imported[k]).0 < v1.next_tex by {
                    assert(v1.imported[k] == v0.imported[k]);
                }
            }
        }
        id
    }

    /// Record texture `id` as imported under `name`.
    pub fn add_imported(&mut self, id: u64, name: String)
        requires
            id < old(self)@.next_tex,
        ensures
            final(self)@.imported == old(self)@.imported.push((id, name@)),
            final(self)@.paths == old(self)@.paths,
            final(self)@.next_tex == old(self)@.next_tex,
            ids_below_next(old(self)@) ==> ids_below_next(final(self)@),
    {
        let ghost before = self.imported@;
        let ghost v0 = old(self)@;
        self.imported.push((id, name));
        assert(pairs_view(self.imported@) =~= pairs_view(before).push((id, self.imported@.last().1@)));
        proof {
            let v1 = self@;
            if ids_below_next(v0) {
                assert forall|k: int| 0 <= k < v1.imported.len() implies (#[trigger] v1.imported[k]).0 < v1.next_tex by {
                    if k < v0.imported.len() {
                        assert(v1.imported[k] == v0.imported[k]);
                    }
                }
                assert forall|k: int| 0 <= k < v1.paths.len() implies (#[trigger] v1.paths[k]).0 < v1.next_tex by {
                    assert(v1.paths[k] == v0.paths[k]);
                }
            }
        }
    }

    /// The id the next loaded texture gets.
    pub fn next_tex(&self) -> (n: u64)
        ensures
            n == self@.next_tex,
    {
        self.next_tex
    }
}

proof fn lemma_found_below(s: Seq<(u64, Seq<char>)>, path: Seq<char>)
    ensures
        first_at_path(s, path) matches Some(id) ==> exists|i: int| 0 <= i < s.len() && (#[trigger] s[i]).0 == id,
    decreases s.len(),
{
    if s.len() > 0 {
        lemma_found_below(s.drop_last(), path);
        if first_at_path(s.drop_last(), path) is Some {
            let id = first_at_path(s.drop_last(), path)->0;
            let i = choose|i: int| 0 <= i < s.drop_last().len() && (#[trigger] s.drop_last()[i]).0 == id;
            assert(s[i].0 == id);
        } else if paths_match(s.last().1, path) {
            assert(s[s.len() - 1].0 == s.last().0);
        }
    }
}

/// A texture loaded from a file and imported under a new name is found again
/// by that name, whatever path is asked for, and keeps a fresh id.
pub proof fn law_loaded_texture_found(v: TextureCacheView, path: Seq<char>, name: Seq<char>, other_path: Seq<char>)
    requires
        ids_below_next(v),
        first_named(v.imported, name) is None,
    ensures
        ({
            let id = v.next_tex;
            let after = TextureCacheView {
                imported: v.imported.push((id, name)),
                paths: v.paths.push((id, path)),
                next_tex: (v.next_tex + 1) as u64,
            };
            spec_cached(after, name, other_path) == (after, Some(id))
        }),
        forall|i: int| 0 <= i < v.imported.len() ==> (#[trigger] v.imported[i]).0 != v.next_tex,
{
    let id = v.next_tex;
    assert(v.imported.push((id, name)).drop_last() =~= v.imported);
}

} // verus!
