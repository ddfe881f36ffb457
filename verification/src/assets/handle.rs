use vstd::prelude::*;

verus! {

/// A unique handle to an asset.
#[derive(Debug, Clone, Copy, PartialEq, Eq, Hash, Structural)]
pub struct AssetHandle(u64);

impl View for AssetHandle {
    type V = u64;

    closed spec fn view(&self) -> u64 {
        self.0
    }
}

impl AssetHandle {
    /// A handle with the given id.
    pub fn new(id: u64) -> (h: Self)
        ensures
            h@ == id,
    {
        AssetHandle(id)
    }

    /// A fresh handle taken from the counter `next_id`, which is advanced by one
    /// (wrapping around at `u64::MAX`, as an atomic `fetch_add` does).
    pub fn generate(next_id: &mut u64) -> (h: Self)
        ensures
            h@ == *old(next_id),
            *final(next_id) == (if *old(next_id) == u64::MAX { 0 } else { (*old(next_id) + 1) as u64 }),
    {
        let id = *next_id;
        *next_id = next_id.wrapping_add(1);
        AssetHandle(id)
    }

    /// The handle's id.
    pub fn id(&self) -> (id: u64)
        ensures
            id == self@,
    {
        self.0
    }
}

} // verus!
