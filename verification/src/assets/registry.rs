//! The bookkeeping of loaded assets: handles, metadata, lookup by path, and
//! what to do when a watched file changes.
use vstd::prelude::*;
use crate::assets::handle::AssetHandle;
use crate::assets::paths::{paths_match, same_path};

verus! {

/// Type of asset.
#[derive(Debug, Clone, Copy, PartialEq, Eq, Hash, Structural)]
pub enum AssetType {
    Texture,
    Audio,
    Scene,
    Script,
    Tileset,
    Animation,
    Font,
}

/// Metadata for a loaded asset.
#[derive(Debug, Clone)]
pub struct AssetMeta {
    pub handle: AssetHandle,
    pub asset_type: AssetType,
    pub path: String,
    pub loaded: bool,
}

/// What a change of a watched file asks for.
#[derive(Debug, Clone, Copy, PartialEq, Eq, Structural)]
pub enum ReloadAction {
    /// The file is a loaded texture: read it again and re-upload it.
    ReloadTexture,
    /// The file is a loaded script: report the change.
    ScriptChanged,
    /// Nothing to do.
    Ignore,
}

/// The assets loaded so far, in load order, and the next handle id.
#[derive(Debug)]
pub struct AssetRegistry {
    assets: Vec<AssetMeta>,
    next_handle: u64,
}

/// The abstract content of an [`AssetRegistry`].
pub struct RegistryView {
    pub assets: Seq<AssetMeta>,
    pub next_handle: u64,
}

impl View for AssetRegistry {
    type V = RegistryView;

    closed spec fn view(&self) -> RegistryView {
        RegistryView { assets: self.assets@, next_handle: self.next_handle }
    }
}

/// The last asset loaded from a path that names the same location as `path`
/// (a path names the asset loaded from it last).
pub open spec fn last_for_path(assets: Seq<AssetMeta>, path: Seq<char>) -> Option<AssetMeta>
    decreases assets.len(),
{
    if assets.len() == 0 {
        None
    } else if paths_match(assets.last().path@, path) {
        Some(assets.last())
    } else {
        last_for_path(assets.drop_last(), path)
    }
}

/// The asset with handle id `id`.
pub open spec fn meta_for_handle(assets: Seq<AssetMeta>, id: u64) -> Option<AssetMeta>
    decreases assets.len(),
{
    if assets.len() == 0 {
        None
    } else if assets.last().handle@ == id {
        Some(assets.last())
    } else {
        meta_for_handle(assets.drop_last(), id)
    }
}

/// What a change of `path` asks for: re-upload a texture, report a script,
/// ignore anything else or anything not loaded.
pub open spec fn spec_reload_action(assets: Seq<AssetMeta>, path: Seq<char>) -> ReloadAction {
    match last_for_path(assets, path) {
        Some(m) => match m.asset_type {
            AssetType::Texture => ReloadAction::ReloadTexture,
            AssetType::Script => ReloadAction::ScriptChanged,
            _ => ReloadAction::Ignore,
        },
        None => ReloadAction::Ignore,
    }
}

/// Handle ids increase in load order and stay below the next id: every
/// loaded asset has its own handle.
pub open spec fn handles_fresh(r: RegistryView) -> bool {
    &&& forall|i: int, j: int| 0 <= i < j < r.assets.len() ==> r.assets[i].handle@ < r.assets[j].handle@
    &&& forall|i: int| 0 <= i < r.assets.len() ==> (#[trigger] r.assets[i]).handle@ < r.next_handle
}

impl AssetRegistry {
    /// No assets; the first handle will have id 1.
    pub fn new() -> (r: Self)
        ensures
            r@.assets == Seq::<AssetMeta>::empty(),
            r@.next_handle == 1,
            handles_fresh(r@),
    {
        AssetRegistry { assets: Vec::new(), next_handle: 1 }
    }

    /// Record an asset loaded from `path`: it gets the next handle.
    pub fn register(&mut self, path: String, asset_type: AssetType) -> (h: AssetHandle)
        requires
            old(self)@.next_handle < u64::MAX,
        ensures
            h@ == old(self)@.next_handle,
            final(self)@.next_handle == old(self)@.next_handle + 1,
            final(self)@.assets.len() == old(self)@.assets.len() + 1,
            final(self)@.assets.drop_last() == old(self)@.assets,
            final(self)@.assets.last().handle == h,
            final(self)@.assets.last().asset_type == asset_type,
            final(self)@.assets.last().path@ == path@,
            final(self)@.assets.last().loaded,
            handles_fresh(old(self)@) ==> handles_fresh(final(self)@),
    {
        let handle = AssetHandle::new(self.next_handle);
        self.next_handle = self.next_handle + 1;
        self.assets.push(AssetMeta { handle, asset_type, path, loaded: true });
        assert(self.assets@.drop_last() =~= old(self).assets@);
        handle
    }

    /// The metadata of the asset with the given handle.
    pub fn get(&self, handle: AssetHandle) -> (m: Option<&AssetMeta>)
        ensures
            m matches Some(x) ==> meta_for_handle(self@.assets, handle@) == Some(*x),
            m is None ==> meta_for_handle(self@.assets, handle@) is None,
    {
        let mut i = self.assets.len();
        assert(self@.assets.take(i as int) =~= self@.assets);
        while i > 0
            invariant
                0 <= i <= self.assets.len(),
                meta_for_handle(self@.assets, handle@) == meta_for_handle(self@.assets.take(i as int), handle@),
            decreases i,
        {
            assert(self@.assets.take(i as int).drop_last() =~= self@.assets.take(i - 1));
            if self.assets[i - 1].handle.id() == handle.id() {
                return Some(&self.assets[i - 1]);
            }
            i = i - 1;
        }
        None
    }

    /// The handle of the asset last loaded from `path`.
    pub fn handle_for_path(&self, path: &str) -> (h: Option<AssetHandle>)
        ensures
            h == (match last_for_path(self@.assets, path@) {
                Some(m) => Some(m.handle),
                None => None,
            }),
    {
        match self.meta_for_path(path) {
            Some(m) => Some(m.handle),
            None => None,
        }
    }

    /// The metadata of the asset last loaded from `path`.
    pub fn meta_for_path(&self, path: &str) -> (m: Option<&AssetMeta>)
        ensures
            m matches Some(x) ==> last_for_path(self@.assets, path@) == Some(*x),
            m is None ==> last_for_path(self@.assets, path@) is None,
    {
        let mut i = self.assets.len();
        assert(self@.assets.take(i as int) =~= self@.assets);
        while i > 0
            invariant
                0 <= i <= self.assets.len(),
                last_for_path(self@.assets, path@) == last_for_path(self@.assets.take(i as int), path@),
            decreases i,
        {
            assert(self@.assets.take(i as int).drop_last() =~= self@.assets.take(i - 1));
            if same_path(self.assets[i - 1].path.as_str(), path) {
                return Some(&self.assets[i - 1]);
            }
            i = i - 1;
        }
        None
    }

    /// What a change of the watched file `path` asks for.
    pub fn reload_action(&self, path: &str) -> (a: ReloadAction)
        ensures
            a == spec_reload_action(self@.assets, path@),
    {
        match self.meta_for_path(path) {
            Some(m) => match m.asset_type {
                AssetType::Texture => ReloadAction::ReloadTexture,
                AssetType::Script => ReloadAction::ScriptChanged,
                _ => ReloadAction::Ignore,
            },
            None => ReloadAction::Ignore,
        }
    }

    /// The id the next registered asset gets.
    pub fn next_handle(&self) -> (n: u64)
        ensures
            n == self@.next_handle,
    {
        self.next_handle
    }

    /// Number of assets loaded.
    pub fn len(&self) -> (n: usize)
        ensures
            n == self@.assets.len(),
    {
        self.assets.len()
    }
}

/// After an asset is loaded from a path, the path leads to it: its handle
/// is found from the path, its metadata from the handle, and a change of
/// the file asks to reload a texture or report a script by its type.
pub proof fn law_registered_asset_found(r: RegistryView, m: AssetMeta)
    requires
        handles_fresh(r),
        m.handle@ == r.next_handle,
    ensures
        last_for_path(r.assets.push(m), m.path@) == Some(m),
        meta_for_handle(r.assets.push(m), m.handle@) == Some(m),
        m.asset_type == AssetType::Texture ==> spec_reload_action(r.assets.push(m), m.path@) == ReloadAction::ReloadTexture,
        m.asset_type == AssetType::Script ==> spec_reload_action(r.assets.push(m), m.path@) == ReloadAction::ScriptChanged,
{
}

/// Loading an asset from one path leaves every path that names another
/// location leading where it led, and every older handle to the same metadata.
pub proof fn law_register_keeps_others(r: RegistryView, m: AssetMeta, other: Seq<char>, id: u64)
    requires
        handles_fresh(r),
        m.handle@ == r.next_handle,
        !paths_match(m.path@, other),
        id != m.handle@,
    ensures
        last_for_path(r.assets.push(m), other) == last_for_path(r.assets, other),
        meta_for_handle(r.assets.push(m), id) == meta_for_handle(r.assets, id),
{
    assert(r.assets.push(m).drop_last() =~= r.assets);
}

} // verus!
