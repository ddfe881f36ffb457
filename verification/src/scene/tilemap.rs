//! Tile layers as a scene file stores them.
use vstd::prelude::*;

verus! {

/// A serializable tile layer: a grid of tile ids (0 = empty), row by row.
#[derive(Debug, Clone)]
pub struct TileLayerData {
    pub name: String,
    pub visible: bool,
    pub tiles: Vec<Vec<u32>>,
    pub cols: usize,
    pub rows: usize,
    pub tile_size: u32,
    pub z_index: i32,
    pub spritesheet_tex_id: Option<u64>,
}

} // verus!
