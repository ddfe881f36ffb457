//! Import settings for assets, modelled after Godot's import dock.
//!
//! Each imported texture gets an [`ImportSettings`] record that controls
//! how it is interpreted by the engine:
//!
//! - **`Texture`**: a plain single-image texture (no auto-slicing).
//! - **`Spritesheet`**: the image is divided into a uniform grid of tiles
//!   whose dimensions are specified by `tile_width` / `tile_height`.
use vstd::prelude::*;

verus! {

/// How a texture should be interpreted after import.
#[derive(Debug, Clone, Copy, PartialEq, Eq, Structural)]
pub enum TextureType {
    /// A single image: the full texture is used as one quad.
    Texture,
    /// A uniform grid of tiles (spritesheet / atlas).
    Spritesheet,
}

impl Default for TextureType {
    fn default() -> (t: Self)
        ensures
            t == TextureType::Texture,
    {
        TextureType::Texture
    }
}

impl TextureType {
    /// The name of the texture type, as shown in the import dock.
    pub fn as_str(&self) -> (s: &'static str)
        ensures
            *self == TextureType::Texture ==> s@ == "Texture"@,
            *self == TextureType::Spritesheet ==> s@ == "Spritesheet"@,
    {
        match self {
            TextureType::Texture => "Texture",
            TextureType::Spritesheet => "Spritesheet",
        }
    }
}

/// Filtering mode applied when sampling the texture on the GPU.
#[derive(Debug, Clone, Copy, PartialEq, Eq, Structural)]
pub enum TextureFilter {
    /// Nearest-neighbour: crisp pixel art, no blur.
    Nearest,
    /// Linear interpolation: smooth, blurry scaling.
    Linear,
}

impl Default for TextureFilter {
    fn default() -> (f: Self)
        ensures
            f == TextureFilter::Nearest,
    {
        TextureFilter::Nearest
    }
}

/// Per-asset import configuration.
#[derive(Debug, Clone, Copy, PartialEq, Eq, Structural)]
pub struct ImportSettings {
    /// How the texture is interpreted (plain texture or spritesheet).
    pub texture_type: TextureType,
    /// Tile width in pixels (only meaningful for `Spritesheet`).
    pub tile_width: u32,
    /// Tile height in pixels (only meaningful for `Spritesheet`).
    pub tile_height: u32,
    /// GPU sampling filter.
    pub filter: TextureFilter,
    /// Whether the texture should repeat (wrap) or clamp to edges.
    pub repeat: bool,
    /// Whether to generate mipmaps.
    pub mipmaps: bool,
}

impl Default for ImportSettings {
    /// A plain texture, 16x16 tiles, nearest filtering, clamped, no mipmaps.
    fn default() -> (s: Self)
        ensures
            s == (ImportSettings {
                texture_type: TextureType::Texture,
                tile_width: 16,
                tile_height: 16,
                filter: TextureFilter::Nearest,
                repeat: false,
                mipmaps: false,
            }),
    {
        ImportSettings {
            texture_type: TextureType::Texture,
            tile_width: 16,
            tile_height: 16,
            filter: TextureFilter::Nearest,
            repeat: false,
            mipmaps: false,
        }
    }
}

/// The tile sizes tried, largest first, when guessing a spritesheet's grid.
pub open spec fn candidate_tile_sizes() -> Seq<u32> {
    seq![64u32, 32u32, 16u32, 8u32]
}

/// `size` cuts a `w` x `h` texture into whole tiles.
pub open spec fn divides_texture(size: u32, w: u32, h: u32) -> bool {
    size > 0 && w >= size && h >= size && w % size == 0 && h % size == 0
}

/// The first of 64, 32, 16, 8 that cuts the texture into whole tiles, if any.
pub open spec fn first_dividing_size(w: u32, h: u32) -> Option<u32> {
    if divides_texture(64, w, h) {
        Some(64u32)
    } else if divides_texture(32, w, h) {
        Some(32u32)
    } else if divides_texture(16, w, h) {
        Some(16u32)
    } else if divides_texture(8, w, h) {
        Some(8u32)
    } else {
        None
    }
}

/// The larger of two values.
pub open spec fn max_u32(a: u32, b: u32) -> u32 {
    if a >= b { a } else { b }
}

/// The tile size guessed for a `w` x `h` texture: the largest of 64, 32, 16, 8
/// that divides both sides, else 16.
pub open spec fn spec_auto_tile_size(w: u32, h: u32) -> u32 {
    match first_dividing_size(w, h) {
        Some(s) => s,
        None => 16,
    }
}

/// The guessed tile size is one of 64, 32, 16, 8; no candidate that fits in
/// both sides and divides both is larger than it; when some candidate fits
/// and divides (which is so exactly when 8 does), so does the guess; when
/// none does, the guess is 16.
pub proof fn law_auto_tile_size_largest_candidate(w: u32, h: u32)
    ensures
        ({
            let r = spec_auto_tile_size(w, h);
            r == 64 || r == 32 || r == 16 || r == 8
        }),
        w >= 64 && h >= 64 && w % 64 == 0 && h % 64 == 0 ==> spec_auto_tile_size(w, h) >= 64,
        w >= 32 && h >= 32 && w % 32 == 0 && h % 32 == 0 ==> spec_auto_tile_size(w, h) >= 32,
        w >= 16 && h >= 16 && w % 16 == 0 && h % 16 == 0 ==> spec_auto_tile_size(w, h) >= 16,
        w >= 8 && h >= 8 && w % 8 == 0 && h % 8 == 0 ==> spec_auto_tile_size(w, h) >= 8,
        (w >= 8 && h >= 8 && w % 8 == 0 && h % 8 == 0) ==> ({
            let r = spec_auto_tile_size(w, h);
            w >= r && h >= r && w % r == 0 && h % r == 0
        }),
        !(w >= 8 && h >= 8 && w % 8 == 0 && h % 8 == 0) ==> spec_auto_tile_size(w, h) == 16,
{
}

/// Number of whole tiles of size `tile` along a side of `len` pixels, at least 1.
pub open spec fn tiles_along(len: u32, tile: u32) -> u32
    recommends
        tile > 0,
{
    max_u32((len / tile) as u32, 1)
}

/// The columns (or rows) of a spritesheet count the whole tiles that fit in
/// the side, but at least one: `n` tiles fit and `n + 1` do not, unless the
/// side is shorter than one tile, which still counts one.
pub proof fn law_tiles_along_whole_tiles(len: u32, tile: u32)
    requires
        tile > 0,
    ensures
        tiles_along(len, tile) >= 1,
        len >= tile ==> tiles_along(len, tile) * tile <= len,
        len < (tiles_along(len, tile) + 1) * tile,
        len < tile ==> tiles_along(len, tile) == 1,
{
    let q = (len / tile) as int;
    vstd::arithmetic::div_mod::lemma_fundamental_div_mod(len as int, tile as int);
    vstd::arithmetic::div_mod::lemma_mod_bound(len as int, tile as int);
    assert(q * tile <= len && len < (q + 1) * tile) by (nonlinear_arith)
        requires len == tile * q + len % tile, 0 <= len % tile < tile;
    if len >= tile {
        assert(q >= 1) by (nonlinear_arith)
            requires len < (q + 1) * tile, len >= tile, tile > 0;
    } else {
        assert(q == 0) by (nonlinear_arith)
            requires q * tile <= len, len < tile, tile > 0, q >= 0;
    }
}

impl ImportSettings {
    /// Settings for a plain texture (no slicing).
    pub fn texture() -> (s: Self)
        ensures
            s == (ImportSettings {
                texture_type: TextureType::Texture,
                tile_width: 16,
                tile_height: 16,
                filter: TextureFilter::Nearest,
                repeat: false,
                mipmaps: false,
            }),
    {
        Self::default()
    }

    /// Settings for a spritesheet with the given tile dimensions (each at least 1).
    pub fn spritesheet(tile_w: u32, tile_h: u32) -> (s: Self)
        ensures
            s == (ImportSettings {
                texture_type: TextureType::Spritesheet,
                tile_width: max_u32(tile_w, 1),
                tile_height: max_u32(tile_h, 1),
                filter: TextureFilter::Nearest,
                repeat: false,
                mipmaps: false,
            }),
    {
        let d = Self::default();
        ImportSettings {
            texture_type: TextureType::Spritesheet,
            tile_width: if tile_w >= 1 { tile_w } else { 1 },
            tile_height: if tile_h >= 1 { tile_h } else { 1 },
            ..d
        }
    }

    /// Auto-detect a reasonable tile size from the texture dimensions.
    ///
    /// Tries common power-of-two sizes (64, 32, 16, 8) and falls back
    /// to 16x16 if none divide evenly.
    pub fn auto_tile_size(tex_w: u32, tex_h: u32) -> (size: u32)
        ensures
            size == spec_auto_tile_size(tex_w, tex_h),
            size >= 1,
    {
        let sizes: [u32; 4] = [64, 32, 16, 8];
        let mut i: usize = 0;
        while i < 4
            invariant
                0 <= i <= 4,
                sizes@ == candidate_tile_sizes(),
                forall|j: int| 0 <= j < i ==> !divides_texture(#[trigger] sizes@[j], tex_w, tex_h),
            decreases 4 - i,
        {
            let size = sizes[i];
            if tex_w >= size && tex_h >= size && tex_w % size == 0 && tex_h % size == 0 {
                return size;
            }
            i = i + 1;
        }
        16
    }

    /// Spritesheet settings with an auto-detected square tile size.
    pub fn auto_spritesheet(tex_w: u32, tex_h: u32) -> (s: Self)
        ensures
            s == (ImportSettings {
                texture_type: TextureType::Spritesheet,
                tile_width: spec_auto_tile_size(tex_w, tex_h),
                tile_height: spec_auto_tile_size(tex_w, tex_h),
                filter: TextureFilter::Nearest,
                repeat: false,
                mipmaps: false,
            }),
    {
        let s = Self::auto_tile_size(tex_w, tex_h);
        Self::spritesheet(s, s)
    }

    /// Number of tile columns (at least 1).
    pub fn cols(&self, tex_w: u32) -> (c: u32)
        requires
            self.tile_width > 0,
        ensures
            c == tiles_along(tex_w, self.tile_width),
    {
        let c = tex_w / self.tile_width;
        if c >= 1 { c } else { 1 }
    }

    /// Number of tile rows (at least 1).
    pub fn rows(&self, tex_h: u32) -> (r: u32)
        requires
            self.tile_height > 0,
        ensures
            r == tiles_along(tex_h, self.tile_height),
    {
        let r = tex_h / self.tile_height;
        if r >= 1 { r } else { 1 }
    }

    /// Total number of tiles.
    pub fn tile_count(&self, tex_w: u32, tex_h: u32) -> (n: u32)
        requires
            self.tile_width > 0,
            self.tile_height > 0,
            tiles_along(tex_w, self.tile_width) * tiles_along(tex_h, self.tile_height) <= u32::MAX,
        ensures
            n == tiles_along(tex_w, self.tile_width) * tiles_along(tex_h, self.tile_height),
    {
        self.cols(tex_w) * self.rows(tex_h)
    }
}

} // verus!
