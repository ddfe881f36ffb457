//! Per-texture spritesheet slicing, as the editor keeps it for every imported texture.
use vstd::prelude::*;
use crate::assets::import::{ImportSettings, TextureType};
use vstd::arithmetic::power2::pow2;
use crate::editor::images::decode_rgba8;

verus! {

/// How a texture is cut into a grid of tiles.
#[derive(Debug, Clone, Copy, PartialEq, Eq, Structural)]
pub struct SpritesheetInfo {
    pub cols: u32,
    pub rows: u32,
    pub tile_w: u32,
    pub tile_h: u32,
    pub tex_w: u32,
    pub tex_h: u32,
}

/// Whole tiles of size `tile` along `len` pixels; a zero tile size counts as one tile.
pub open spec fn grid_count(len: u32, tile: u32) -> u32 {
    if tile > 0 { (len / tile) as u32 } else { 1 }
}

/// The slicing of a `tex_w` x `tex_h` texture into `tile_w` x `tile_h` tiles.
pub open spec fn spec_slicing(tex_w: u32, tex_h: u32, tile_w: u32, tile_h: u32) -> SpritesheetInfo {
    SpritesheetInfo {
        cols: grid_count(tex_w, tile_w),
        rows: grid_count(tex_h, tile_h),
        tile_w,
        tile_h,
        tex_w,
        tex_h,
    }
}

/// How many times two divides both `w` and `h` (none when either is zero).
pub open spec fn shared_twos(w: nat, h: nat) -> nat
    decreases w,
{
    if w > 0 && h > 0 && w % 2 == 0 && h % 2 == 0 {
        1 + shared_twos(w / 2, h / 2)
    } else {
        0
    }
}

/// The editor's tile-size guess: the largest power of two dividing both
/// sides (zero for an empty texture).
pub open spec fn spec_editor_auto_tile_size(w: u32, h: u32) -> u32 {
    if w == 0 || h == 0 {
        0
    } else {
        pow2(shared_twos(w as nat, h as nat)) as u32
    }
}

/// The slicing a freshly imported `w` x `h` texture gets: auto-detected
/// square tiles when `auto_slice` is set, else the whole texture as one tile.
pub open spec fn spec_import_slicing(w: u32, h: u32, auto_slice: bool) -> SpritesheetInfo {
    if auto_slice {
        spec_slicing(w, h, spec_editor_auto_tile_size(w, h), spec_editor_auto_tile_size(w, h))
    } else {
        spec_slicing(w, h, w, h)
    }
}

impl SpritesheetInfo {
    /// Slice a `tex_w` x `tex_h` texture into `tile_w` x `tile_h` tiles.
    pub fn new(tex_w: u32, tex_h: u32, tile_w: u32, tile_h: u32) -> (s: Self)
        ensures
            s == spec_slicing(tex_w, tex_h, tile_w, tile_h),
    {
        SpritesheetInfo {
            cols: if tile_w > 0 { tex_w / tile_w } else { 1 },
            rows: if tile_h > 0 { tex_h / tile_h } else { 1 },
            tile_w,
            tile_h,
            tex_w,
            tex_h,
        }
    }

    /// Number of tiles in the grid.
    pub fn tile_count(&self) -> (n: u32)
        requires
            self.cols * self.rows <= u32::MAX,
        ensures
            n == self.cols * self.rows,
    {
        self.cols * self.rows
    }

    /// Column and row of the tile with the given index, counted row by row.
    pub fn tile_cell(&self, index: u32) -> (cell: (u32, u32))
        requires
            self.cols > 0,
        ensures
            cell.0 == index % self.cols,
            cell.1 == index / self.cols,
            cell.0 < self.cols,
            cell.1 * self.cols + cell.0 == index,
    {
        let col = index % self.cols;
        let row = index / self.cols;
        proof {
            vstd::arithmetic::div_mod::lemma_fundamental_div_mod(index as int, self.cols as int);
            vstd::arithmetic::mul::lemma_mul_is_commutative(row as int, self.cols as int);
        }
        (col, row)
    }
}

impl SpritesheetInfo {
    /// The top-left pixel, within the texture, of the tile with the given
    /// index (counted row by row): where a sprite showing that tile starts.
    pub fn tile_source(&self, index: u32) -> (xy: (u32, u32))
        requires
            self.cols > 0,
            (index % self.cols) * self.tile_w <= u32::MAX,
            (index / self.cols) * self.tile_h <= u32::MAX,
        ensures
            xy.0 == (index % self.cols) * self.tile_w,
            xy.1 == (index / self.cols) * self.tile_h,
    {
        ((index % self.cols) * self.tile_w, (index / self.cols) * self.tile_h)
    }
}

/// A grid counts the whole tiles that fit: `count` tiles of size `tile` fit
/// in `len` pixels and one more would not; a zero tile size counts one tile.
pub proof fn law_grid_counts_whole_tiles(len: u32, tile: u32)
    ensures
        tile > 0 ==> grid_count(len, tile) * tile <= len,
        tile > 0 ==> len < (grid_count(len, tile) + 1) * tile,
        tile == 0 ==> grid_count(len, tile) == 1,
{
    if tile > 0 {
        let q = (len / tile) as int;
        vstd::arithmetic::div_mod::lemma_fundamental_div_mod(len as int, tile as int);
        vstd::arithmetic::div_mod::lemma_mod_bound(len as int, tile as int);
        assert(q * tile <= len && len < (q + 1) * tile) by (nonlinear_arith)
            requires len == tile * q + len % tile, 0 <= len % tile < tile;
    }
}

/// The index of the tile whose cell holds the source corner (`sx`, `sy`),
/// counted row by row and clamped to the last tile; zero when a tile side is
/// zero.
pub open spec fn spec_tile_at_source(info: SpritesheetInfo, sx: u32, sy: u32) -> u32 {
    let cur: int = if info.tile_w > 0 && info.tile_h > 0 {
        (sy / info.tile_h) * info.cols + sx / info.tile_w
    } else {
        0
    };
    let last: int = if info.cols * info.rows >= 1 { info.cols * info.rows - 1 } else { 0 };
    (if cur <= last { cur } else { last }) as u32
}

impl SpritesheetInfo {
    /// The tile a sprite shows, from the top-left corner of its source
    /// rectangle: the cell the corner lies in, clamped to the last tile.
    pub fn tile_at_source(&self, sx: u32, sy: u32) -> (i: u32)
        requires
            self.cols * self.rows <= u32::MAX,
            self.tile_w > 0 && self.tile_h > 0 ==> (sy / self.tile_h) * self.cols + sx / self.tile_w <= u32::MAX,
        ensures
            i == spec_tile_at_source(*self, sx, sy),
    {
        let cur: u32 = if self.tile_w > 0 && self.tile_h > 0 {
            let col = sx / self.tile_w;
            let row = sy / self.tile_h;
            assert(row * self.cols <= u32::MAX) by (nonlinear_arith)
                requires row * self.cols + col <= u32::MAX, col >= 0;
            row * self.cols + col
        } else {
            0
        };
        let count = self.tile_count();
        let last: u32 = if count >= 1 { count - 1 } else { 0 };
        if cur <= last { cur } else { last }
    }
}

/// Finding the tile from the source corner that `tile_source` gives for a
/// tile of the grid gives back that tile.
pub proof fn law_tile_at_source_roundtrip(info: SpritesheetInfo, i: u32)
    requires
        info.tile_w > 0,
        info.tile_h > 0,
        info.cols > 0,
        i < info.cols * info.rows,
        (i % info.cols) * info.tile_w <= u32::MAX,
        (i / info.cols) * info.tile_h <= u32::MAX,
    ensures
        spec_tile_at_source(info, ((i % info.cols) * info.tile_w) as u32, ((i / info.cols) * info.tile_h) as u32) == i,
{
    let c = info.cols as int;
    let col = (i % info.cols) as int;
    let row = (i / info.cols) as int;
    vstd::arithmetic::div_mod::lemma_div_multiples_vanish(col, info.tile_w as int);
    vstd::arithmetic::div_mod::lemma_div_multiples_vanish(row, info.tile_h as int);
    vstd::arithmetic::mul::lemma_mul_is_commutative(col, info.tile_w as int);
    vstd::arithmetic::mul::lemma_mul_is_commutative(row, info.tile_h as int);
    vstd::arithmetic::div_mod::lemma_fundamental_div_mod(i as int, c);
    vstd::arithmetic::mul::lemma_mul_is_commutative(row, c);
}

/// Auto-detect a tile size: the largest power of two that divides both
/// dimensions (zero when a dimension is zero).
pub fn auto_tile_size(tw: u32, th: u32) -> (size: u32)
    ensures
        size == spec_editor_auto_tile_size(tw, th),
        size == 0 <==> (tw == 0 || th == 0),
{
    if tw == 0 || th == 0 {
        return 0;
    }
    let mut a: u32 = tw;
    let mut b: u32 = th;
    let mut r: u32 = 1;
    let ghost mut n: nat = 0;
    proof {
        vstd::arithmetic::power2::lemma_pow2(0);
        vstd::arithmetic::power::lemma_pow0(2);
    }
    while a % 2 == 0 && b % 2 == 0
        invariant
            0 < a,
            0 < b,
            r as nat == pow2(n),
            a as int * r as int == tw as int,
            b as int * r as int == th as int,
            shared_twos(tw as nat, th as nat) == n + shared_twos(a as nat, b as nat),
        decreases a,
    {
        let ghost a0: int = a as int;
        let ghost b0: int = b as int;
        let ghost r0: int = r as int;
        proof {
            assert(2 * r0 <= a0 * r0) by (nonlinear_arith)
                requires a0 >= 2, r0 >= 0;
            vstd::arithmetic::power2::lemma_pow2_unfold(n + 1);
        }
        a = a / 2;
        b = b / 2;
        r = r * 2;
        proof {
            assert(a as int * r as int == a0 * r0) by (nonlinear_arith)
                requires a0 == 2 * (a as int), r as int == 2 * r0;
            assert(b as int * r as int == b0 * r0) by (nonlinear_arith)
                requires b0 == 2 * (b as int), r as int == 2 * r0;
            n = n + 1;
        }
    }
    r
}

/// The slicing a freshly imported texture gets: auto-detected square tiles
/// when `auto_slice` is set, else the whole texture as one tile.
pub fn import_slicing(w: u32, h: u32, auto_slice: bool) -> (s: SpritesheetInfo)
    ensures
        s == spec_import_slicing(w, h, auto_slice),
{
    if auto_slice {
        let t = auto_tile_size(w, h);
        SpritesheetInfo::new(w, h, t, t)
    } else {
        SpritesheetInfo::new(w, h, w, h)
    }
}

/// The slicing of an imported image file: none when its bytes do not
/// decode, else the slicing a texture of the decoded size gets on import.
pub fn import_texture_slicing(bytes: &[u8], auto_slice: bool) -> (s: Option<SpritesheetInfo>)
    ensures
        s matches Some(i) ==> i == spec_import_slicing(i.tex_w, i.tex_h, auto_slice),
{
    match decode_rgba8(bytes) {
        Some((w, h, _pixels)) => Some(import_slicing(w, h, auto_slice)),
        None => None,
    }
}

/// The slicing that import settings ask for: the whole texture for a plain
/// texture, the settings' tile size for a spritesheet.
pub fn settings_slicing(settings: &ImportSettings, tw: u32, th: u32) -> (s: SpritesheetInfo)
    ensures
        settings.texture_type == TextureType::Texture ==> s == spec_slicing(tw, th, tw, th),
        settings.texture_type == TextureType::Spritesheet ==> s == spec_slicing(tw, th,
            settings.tile_width, settings.tile_height),
{
    match settings.texture_type {
        TextureType::Texture => SpritesheetInfo::new(tw, th, tw, th),
        TextureType::Spritesheet => SpritesheetInfo::new(tw, th, settings.tile_width, settings.tile_height),
    }
}

/// The tilesheet grid auto-detected for a `tw` x `th` texture: columns, rows
/// and the square tile size.
pub fn auto_tilesheet_grid(tw: u32, th: u32) -> (g: (u32, u32, u32))
    requires
        tw > 0,
        th > 0,
    ensures
        g.2 == spec_editor_auto_tile_size(tw, th),
        g.2 > 0,
        g.0 == tw / g.2,
        g.1 == th / g.2,
{
    let t = auto_tile_size(tw, th);
    (tw / t, th / t, t)
}

/// `2 * m` divides `x` exactly when two divides `x` and `m` divides its half.
proof fn lemma_double_divides(x: nat, m: nat)
    requires
        m > 0,
    ensures
        x % (2 * m) == 0 <==> (x % 2 == 0 && (x / 2) % m == 0),
{
    let xi: int = x as int;
    let mi: int = m as int;
    if x % (2 * m) == 0 {
        let q: int = xi / (2 * mi);
        vstd::arithmetic::div_mod::lemma_fundamental_div_mod(xi, 2 * mi);
        assert(xi == 2 * (mi * q)) by (nonlinear_arith)
            requires xi == (2 * mi) * q + 0;
        vstd::arithmetic::div_mod::lemma_mod_multiples_basic(mi * q, 2);
        vstd::arithmetic::div_mod::lemma_div_multiples_vanish(mi * q, 2);
        vstd::arithmetic::div_mod::lemma_mod_multiples_basic(q, mi);
        assert(mi * q == q * mi) by (nonlinear_arith);
        assert(2 * (mi * q) == (mi * q) * 2) by (nonlinear_arith);
    }
    if x % 2 == 0 && (x / 2) % m == 0 {
        let h: int = xi / 2;
        let p: int = h / mi;
        vstd::arithmetic::div_mod::lemma_fundamental_div_mod(xi, 2);
        vstd::arithmetic::div_mod::lemma_fundamental_div_mod(h, mi);
        assert(xi == p * (2 * mi)) by (nonlinear_arith)
            requires xi == 2 * h + 0, h == mi * p + 0;
        vstd::arithmetic::div_mod::lemma_mod_multiples_basic(p, 2 * mi);
    }
}

/// The power of two counted by `shared_twos` divides both sides, fits in
/// both, and no larger power of two divides both.
proof fn lemma_shared_twos(w: nat, h: nat)
    requires
        w > 0,
        h > 0,
    ensures
        pow2(shared_twos(w, h)) <= w,
        pow2(shared_twos(w, h)) <= h,
        w % pow2(shared_twos(w, h)) == 0,
        h % pow2(shared_twos(w, h)) == 0,
        forall|k: nat| w % #[trigger] pow2(k) == 0 && h % pow2(k) == 0 ==> pow2(k) <= pow2(shared_twos(w, h)),
    decreases w,
{
    let n = shared_twos(w, h);
    vstd::arithmetic::power2::lemma_pow2(0);
    vstd::arithmetic::power::lemma_pow0(2);
    if w % 2 == 0 && h % 2 == 0 {
        lemma_shared_twos(w / 2, h / 2);
        let c = pow2(shared_twos(w / 2, h / 2));
        vstd::arithmetic::power2::lemma_pow2_unfold(n);
        assert(pow2(n) == 2 * c);
        vstd::arithmetic::power2::lemma_pow2_pos(shared_twos(w / 2, h / 2));
        lemma_double_divides(w, c);
        lemma_double_divides(h, c);
        assert forall|k: nat| w % #[trigger] pow2(k) == 0 && h % pow2(k) == 0 implies pow2(k) <= pow2(n) by {
            if k > 0 {
                vstd::arithmetic::power2::lemma_pow2_unfold(k);
                let m = pow2((k - 1) as nat);
                vstd::arithmetic::power2::lemma_pow2_pos((k - 1) as nat);
                lemma_double_divides(w, m);
                lemma_double_divides(h, m);
            }
        }
    } else {
        assert(n == 0);
        assert forall|k: nat| w % #[trigger] pow2(k) == 0 && h % pow2(k) == 0 implies pow2(k) <= pow2(n) by {
            if k > 0 {
                vstd::arithmetic::power2::lemma_pow2_unfold(k);
                let m = pow2((k - 1) as nat);
                vstd::arithmetic::power2::lemma_pow2_pos((k - 1) as nat);
                lemma_double_divides(w, m);
                lemma_double_divides(h, m);
            }
        }
    }
}

/// For a non-empty texture the guessed tile size is a power of two that
/// divides both sides, so it cuts the texture into whole tiles, and no
/// larger power of two divides both sides.
pub proof fn law_auto_tile_largest_pow2(tw: u32, th: u32)
    requires
        tw > 0,
        th > 0,
    ensures
        spec_editor_auto_tile_size(tw, th) as nat == pow2(shared_twos(tw as nat, th as nat)),
        exists|k: nat| pow2(k) == spec_editor_auto_tile_size(tw, th) as nat,
        0 < spec_editor_auto_tile_size(tw, th) <= tw,
        spec_editor_auto_tile_size(tw, th) <= th,
        tw % spec_editor_auto_tile_size(tw, th) == 0,
        th % spec_editor_auto_tile_size(tw, th) == 0,
        forall|k: nat| (tw as nat) % #[trigger] pow2(k) == 0 && (th as nat) % pow2(k) == 0
            ==> pow2(k) <= spec_editor_auto_tile_size(tw, th) as nat,
{
    lemma_shared_twos(tw as nat, th as nat);
    let k = shared_twos(tw as nat, th as nat);
    vstd::arithmetic::power2::lemma_pow2_pos(k);
    assert(pow2(k) == spec_editor_auto_tile_size(tw, th) as nat);
}

} // verus!
