//! What the editor viewport draws for tiles and sprites.
use vstd::prelude::*;
use crate::editor::tiles::{palette_index, spec_palette_index, TL};

verus! {

/// How a non-empty tile is drawn.
#[derive(Debug, Clone, Copy, PartialEq, Eq, Structural)]
pub enum TileLook {
    /// Tile `index` of the spritesheet texture `texture`.
    Sheet { texture: u64, index: u32 },
    /// A flat quad in palette colour `index`.
    Palette { index: usize },
}

/// The spritesheet texture a layer draws its tiles from: its own, else the
/// scene's tilesheet, else none (0).
pub open spec fn spec_sheet_texture(layer_sheet: Option<u64>, global_sheet: Option<u64>) -> u64 {
    match layer_sheet {
        Some(t) => t,
        None => match global_sheet {
            Some(t) => t,
            None => 0,
        },
    }
}

/// The spritesheet texture a layer draws its tiles from (0 for none).
pub fn sheet_texture(layer: &TL, global_sheet: Option<u64>) -> (t: u64)
    ensures
        t == spec_sheet_texture(layer.spritesheet_tex_id, global_sheet),
{
    match layer.spritesheet_tex_id {
        Some(t) => t,
        None => match global_sheet {
            Some(t) => t,
            None => 0,
        },
    }
}

/// How tile id `tid` (not 0) is drawn from texture `sheet` (0 for none):
/// spritesheet tile `tid - 1`, or without a sheet palette colour `tid - 1`
/// clamped to the palette.
pub fn tile_look(sheet: u64, tid: u32, palette_len: usize) -> (l: TileLook)
    requires
        tid > 0,
    ensures
        sheet != 0 ==> l == (TileLook::Sheet { texture: sheet, index: (tid - 1) as u32 }),
        sheet == 0 ==> l == (TileLook::Palette { index: spec_palette_index(tid as nat, palette_len as nat) as usize }),
{
    if sheet != 0 {
        TileLook::Sheet { texture: sheet, index: tid - 1 }
    } else {
        TileLook::Palette { index: palette_index(tid, palette_len) }
    }
}

/// The unscaled size of a sprite: its source rectangle, or 16 pixels for a
/// side of zero length.
pub fn sprite_base_extent(source_width: u32, source_height: u32) -> (wh: (u32, u32))
    ensures
        wh.0 == (if source_width > 0 { source_width } else { 16 }),
        wh.1 == (if source_height > 0 { source_height } else { 16 }),
{
    (if source_width > 0 { source_width } else { 16 }, if source_height > 0 { source_height } else { 16 })
}

} // verus!
