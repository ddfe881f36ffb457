//! Tile layers in the editor: painting, the tiles to draw and to collide
//! with, and the colour a palette tile gets.
use vstd::prelude::*;
use crate::scene::tilemap::TileLayerData;
use crate::text::{decimal, numbered};

verus! {

/// Default layer width, in tiles.
pub const DEFAULT_LAYER_COLS: usize = 20;
/// Default layer height, in tiles.
pub const DEFAULT_LAYER_ROWS: usize = 11;
/// Default tile size, in pixels.
pub const DEFAULT_TILE_SIZE: u32 = 16;

/// An editable tile layer: a grid of tile ids (0 = empty), row by row.
#[derive(Debug)]
pub struct TL {
    pub name: String,
    pub vis: bool,
    pub tiles: Vec<Vec<u32>>,
    pub cols: usize,
    pub rows: usize,
    pub ts: u32,
    pub z_index: i32,
    pub spritesheet_tex_id: Option<u64>,
}

/// The tile grid as rows of ids.
pub open spec fn grid_view(tiles: Seq<Vec<u32>>) -> Seq<Seq<u32>> {
    tiles.map_values(|v: Vec<u32>| v@)
}

/// A grid of `rows` rows of `cols` empty tiles.
pub open spec fn blank_grid(rows: nat, cols: nat) -> Seq<Seq<u32>> {
    Seq::new(rows, |r: int| Seq::new(cols, |c: int| 0u32))
}

/// The grid has `rows` rows of `cols` tiles each.
pub open spec fn grid_matches(tiles: Seq<Vec<u32>>, rows: nat, cols: nat) -> bool {
    &&& tiles.len() == rows
    &&& forall|r: int| 0 <= r < rows ==> (#[trigger] tiles[r]).len() == cols
}

/// The non-empty tiles among the first `upto` of row `r`, as (row, column, id).
pub open spec fn row_tiles(row: Seq<u32>, r: int, upto: int) -> Seq<(int, int, u32)>
    decreases upto,
{
    if upto <= 0 {
        Seq::empty()
    } else {
        let prev = row_tiles(row, r, upto - 1);
        if row[upto - 1] != 0 {
            prev.push((r, upto - 1, row[upto - 1]))
        } else {
            prev
        }
    }
}

/// The non-empty tiles of the first `upto` rows, row by row, left to right.
pub open spec fn grid_tiles(g: Seq<Seq<u32>>, upto: int) -> Seq<(int, int, u32)>
    decreases upto,
{
    if upto <= 0 {
        Seq::empty()
    } else {
        grid_tiles(g, upto - 1) + row_tiles(g[upto - 1], upto - 1, g[upto - 1].len() as int)
    }
}

/// The tiles a layer shows: none when hidden, else every non-empty tile.
pub open spec fn spec_visible_tiles(vis: bool, g: Seq<Seq<u32>>) -> Seq<(int, int, u32)> {
    if vis { grid_tiles(g, g.len() as int) } else { Seq::empty() }
}

/// The palette entry a tile id is drawn with when its layer has no
/// spritesheet: id `t` uses entry `t - 1` (id 0 as 1), clamped to the palette.
pub open spec fn spec_palette_index(tid: nat, palette_len: nat) -> nat {
    let i: nat = if tid >= 1 { (tid - 1) as nat } else { 0 };
    let last: nat = if palette_len >= 1 { (palette_len - 1) as nat } else { 0 };
    if i <= last { i } else { last }
}

fn blank_tiles(rows: usize, cols: usize) -> (t: Vec<Vec<u32>>)
    ensures
        grid_view(t@) == blank_grid(rows as nat, cols as nat),
        grid_matches(t@, rows as nat, cols as nat),
{
    let mut t: Vec<Vec<u32>> = Vec::new();
    let mut r: usize = 0;
    while r < rows
        invariant
            0 <= r <= rows,
            t.len() == r,
            grid_view(t@) == blank_grid(r as nat, cols as nat),
            grid_matches(t@, r as nat, cols as nat),
        decreases rows - r,
    {
        let mut line: Vec<u32> = Vec::new();
        let mut c: usize = 0;
        while c < cols
            invariant
                0 <= c <= cols,
                line@ == Seq::new(c as nat, |k: int| 0u32),
            decreases cols - c,
        {
            line.push(0);
            assert(line@ =~= Seq::new((c + 1) as nat, |k: int| 0u32));
            c = c + 1;
        }
        let ghost before = t@;
        t.push(line);
        assert forall|k: int| 0 <= k < r + 1 implies #[trigger] grid_view(t@)[k] == blank_grid((r + 1) as nat, cols as nat)[k] by {
            if k < r {
                assert(t@[k] == before[k]);
                assert(grid_view(before)[k] == blank_grid(r as nat, cols as nat)[k]);
            } else {
                assert(grid_view(t@)[k] =~= blank_grid((r + 1) as nat, cols as nat)[k]);
            }
        }
        assert(grid_view(t@) =~= blank_grid((r + 1) as nat, cols as nat));
        assert forall|k: int| 0 <= k < r + 1 implies (#[trigger] t@[k]).len() == cols by {
            if k < r {
                assert(t@[k] == before[k]);
            }
        }
        r = r + 1;
    }
    t
}

impl TL {
    /// A new visible layer of 20x11 empty 16-pixel tiles.
    pub fn new_layer(name: String) -> (l: TL)
        ensures
            l.name@ == name@,
            l.vis,
            grid_view(l.tiles@) == blank_grid(DEFAULT_LAYER_ROWS as nat, DEFAULT_LAYER_COLS as nat),
            grid_matches(l.tiles@, DEFAULT_LAYER_ROWS as nat, DEFAULT_LAYER_COLS as nat),
            l.cols == DEFAULT_LAYER_COLS,
            l.rows == DEFAULT_LAYER_ROWS,
            l.ts == DEFAULT_TILE_SIZE,
            l.z_index == 0,
            l.spritesheet_tex_id is None,
    {
        TL {
            name,
            vis: true,
            tiles: blank_tiles(DEFAULT_LAYER_ROWS, DEFAULT_LAYER_COLS),
            cols: DEFAULT_LAYER_COLS,
            rows: DEFAULT_LAYER_ROWS,
            ts: DEFAULT_TILE_SIZE,
            z_index: 0,
            spritesheet_tex_id: None,
        }
    }

    /// The layer a new scene starts with: an empty "Ground" layer.
    pub fn ground() -> (l: TL)
        ensures
            l.name@ == "Ground"@,
            l.vis,
            grid_view(l.tiles@) == blank_grid(DEFAULT_LAYER_ROWS as nat, DEFAULT_LAYER_COLS as nat),
            l.cols == DEFAULT_LAYER_COLS,
            l.rows == DEFAULT_LAYER_ROWS,
            l.ts == DEFAULT_TILE_SIZE,
            l.z_index == 0,
            l.spritesheet_tex_id is None,
    {
        TL::new_layer(String::from_str("Ground"))
    }

    /// The layer added as the `n`-th one: an empty layer named "Layer n".
    pub fn numbered_layer(n: usize) -> (l: TL)
        requires
            n <= u64::MAX,
        ensures
            l.name@ == "Layer "@ + decimal(n as nat),
            l.vis,
            grid_view(l.tiles@) == blank_grid(DEFAULT_LAYER_ROWS as nat, DEFAULT_LAYER_COLS as nat),
            l.cols == DEFAULT_LAYER_COLS,
            l.rows == DEFAULT_LAYER_ROWS,
            l.ts == DEFAULT_TILE_SIZE,
            l.z_index == 0,
            l.spritesheet_tex_id is None,
    {
        TL::new_layer(numbered("Layer ", n as u64))
    }

    /// Set the tile at (`row`, `col`) if that cell lies within the layer's
    /// `rows` x `cols` extent; outside it nothing changes.
    pub fn paint(&mut self, row: usize, col: usize, tile: u32)
        requires
            old(self).rows <= old(self).tiles.len(),
            forall|r: int| 0 <= r < old(self).rows ==> old(self).cols <= (#[trigger] old(self).tiles@[r]).len(),
        ensures
            final(self).name == old(self).name,
            final(self).vis == old(self).vis,
            final(self).cols == old(self).cols,
            final(self).rows == old(self).rows,
            final(self).ts == old(self).ts,
            final(self).z_index == old(self).z_index,
            final(self).spritesheet_tex_id == old(self).spritesheet_tex_id,
            row < old(self).rows && col < old(self).cols ==> grid_view(final(self).tiles@)
                == grid_view(old(self).tiles@).update(row as int, grid_view(old(self).tiles@)[row as int].update(col as int, tile)),
            !(row < old(self).rows && col < old(self).cols) ==> final(self).tiles@ == old(self).tiles@,
    {
        if row < self.rows && col < self.cols {
            let ghost g = grid_view(self.tiles@);
            let mut line = self.tiles.remove(row);
            line.set(col, tile);
            self.tiles.insert(row, line);
            assert(grid_view(self.tiles@) =~= g.update(row as int, g[row as int].update(col as int, tile)));
        }
    }

    /// The tiles to draw (and to collide with while playing): none for a
    /// hidden layer, else every non-empty tile as (row, column, id), row by row.
    pub fn visible_tiles(&self) -> (out: Vec<(usize, usize, u32)>)
        ensures
            out@.map_values(|x: (usize, usize, u32)| (x.0 as int, x.1 as int, x.2))
                == spec_visible_tiles(self.vis, grid_view(self.tiles@)),
    {
        let mut out: Vec<(usize, usize, u32)> = Vec::new();
        if !self.vis {
            assert(out@.map_values(|x: (usize, usize, u32)| (x.0 as int, x.1 as int, x.2)) =~= Seq::empty());
            return out;
        }
        let ghost g = grid_view(self.tiles@);
        let mut r: usize = 0;
        while r < self.tiles.len()
            invariant
                0 <= r <= self.tiles.len(),
                g == grid_view(self.tiles@),
                out@.map_values(|x: (usize, usize, u32)| (x.0 as int, x.1 as int, x.2)) == grid_tiles(g, r as int),
            decreases self.tiles.len() - r,
        {
            let line = &self.tiles[r];
            assert(line@ == g[r as int]);
            let mut c: usize = 0;
            while c < line.len()
                invariant
                    0 <= c <= line.len(),
                    line@ == g[r as int],
                    r < g.len(),
                    out@.map_values(|x: (usize, usize, u32)| (x.0 as int, x.1 as int, x.2))
                        == grid_tiles(g, r as int) + row_tiles(g[r as int], r as int, c as int),
                decreases line.len() - c,
            {
                let t = line[c];
                let ghost before = out@;
                if t != 0 {
                    out.push((r, c, t));
                    assert(out@.map_values(|x: (usize, usize, u32)| (x.0 as int, x.1 as int, x.2))
                        =~= before.map_values(|x: (usize, usize, u32)| (x.0 as int, x.1 as int, x.2)).push((r as int, c as int, t)));
                }
                assert(grid_tiles(g, r as int) + row_tiles(g[r as int], r as int, c + 1)
                    =~= (grid_tiles(g, r as int) + row_tiles(g[r as int], r as int, c as int)) + (if t != 0 {
                    seq![(r as int, c as int, t)]
                } else {
                    Seq::empty()
                }));
                c = c + 1;
            }
            r = r + 1;
        }
        out
    }

    /// The layer as a scene file stores it.
    pub fn into_data(self) -> (d: TileLayerData)
        ensures
            d == layer_to_data(self),
    {
        TileLayerData {
            name: self.name,
            visible: self.vis,
            tiles: self.tiles,
            cols: self.cols,
            rows: self.rows,
            tile_size: self.ts,
            z_index: self.z_index,
            spritesheet_tex_id: self.spritesheet_tex_id,
        }
    }

    /// The editable layer for a layer read from a scene file.
    pub fn from_data(d: TileLayerData) -> (l: TL)
        ensures
            l == data_to_layer(d),
    {
        TL {
            name: d.name,
            vis: d.visible,
            tiles: d.tiles,
            cols: d.cols,
            rows: d.rows,
            ts: d.tile_size,
            z_index: d.z_index,
            spritesheet_tex_id: d.spritesheet_tex_id,
        }
    }
}

/// The field-by-field correspondence of an editable layer and a stored one.
pub open spec fn layer_to_data(l: TL) -> TileLayerData {
    TileLayerData {
        name: l.name,
        visible: l.vis,
        tiles: l.tiles,
        cols: l.cols,
        rows: l.rows,
        tile_size: l.ts,
        z_index: l.z_index,
        spritesheet_tex_id: l.spritesheet_tex_id,
    }
}

/// The inverse correspondence.
pub open spec fn data_to_layer(d: TileLayerData) -> TL {
    TL {
        name: d.name,
        vis: d.visible,
        tiles: d.tiles,
        cols: d.cols,
        rows: d.rows,
        ts: d.tile_size,
        z_index: d.z_index,
        spritesheet_tex_id: d.spritesheet_tex_id,
    }
}

proof fn lemma_row_tiles(row: Seq<u32>, r: int, upto: int)
    requires
        0 <= upto <= row.len(),
    ensures
        forall|k: int| 0 <= k < row_tiles(row, r, upto).len() ==> {
            let e = #[trigger] row_tiles(row, r, upto)[k];
            &&& e.0 == r
            &&& 0 <= e.1 < upto
            &&& e.2 == row[e.1]
            &&& e.2 != 0
        },
        forall|a: int, b: int| 0 <= a < b < row_tiles(row, r, upto).len()
            ==> (#[trigger] row_tiles(row, r, upto)[a]).1 < (#[trigger] row_tiles(row, r, upto)[b]).1,
        forall|c: int| 0 <= c < upto && row[c] != 0 ==> row_tiles(row, r, upto).contains((r, c, #[trigger] row[c])),
    decreases upto,
{
    if upto > 0 {
        lemma_row_tiles(row, r, upto - 1);
        let prev = row_tiles(row, r, upto - 1);
        let cur = row_tiles(row, r, upto);
        assert forall|c: int| 0 <= c < upto && row[c] != 0 implies cur.contains((r, c, #[trigger] row[c])) by {
            if c < upto - 1 {
                let k = choose|k: int| 0 <= k < prev.len() && prev[k] == (r, c, row[c]);
                assert(cur[k] == prev[k]);
            } else {
                assert(cur[prev.len() as int] == (r, c, row[c]));
            }
        }
        assert forall|k: int| 0 <= k < cur.len() implies {
            let e = #[trigger] cur[k];
            &&& e.0 == r
            &&& 0 <= e.1 < upto
            &&& e.2 == row[e.1]
            &&& e.2 != 0
        } by {
            if k < prev.len() {
                assert(cur[k] == prev[k]);
            }
        }
        assert forall|a: int, b: int| 0 <= a < b < cur.len() implies (#[trigger] cur[a]).1 < (#[trigger] cur[b]).1 by {
            if b < prev.len() {
                assert(cur[a] == prev[a] && cur[b] == prev[b]);
            } else {
                assert(cur[a] == prev[a]);
            }
        }
    }
}

/// Lexicographic order of grid cells.
pub open spec fn cell_before(a: (int, int, u32), b: (int, int, u32)) -> bool {
    a.0 < b.0 || (a.0 == b.0 && a.1 < b.1)
}

proof fn lemma_grid_tiles(g: Seq<Seq<u32>>, upto: int)
    requires
        0 <= upto <= g.len(),
    ensures
        forall|k: int| 0 <= k < grid_tiles(g, upto).len() ==> {
            let e = #[trigger] grid_tiles(g, upto)[k];
            &&& 0 <= e.0 < upto
            &&& 0 <= e.1 < g[e.0].len()
            &&& e.2 == g[e.0][e.1]
            &&& e.2 != 0
        },
        forall|a: int, b: int| 0 <= a < b < grid_tiles(g, upto).len()
            ==> cell_before(#[trigger] grid_tiles(g, upto)[a], #[trigger] grid_tiles(g, upto)[b]),
        forall|r: int, c: int| 0 <= r < upto && 0 <= c < g[r].len() && #[trigger] g[r][c] != 0
            ==> grid_tiles(g, upto).contains((r, c, g[r][c])),
    decreases upto,
{
    if upto > 0 {
        lemma_grid_tiles(g, upto - 1);
        let prev = grid_tiles(g, upto - 1);
        let row = g[upto - 1];
        lemma_row_tiles(row, upto - 1, row.len() as int);
        let rt = row_tiles(row, upto - 1, row.len() as int);
        let cur = grid_tiles(g, upto);
        assert(cur == prev + rt);
        assert forall|k: int| 0 <= k < cur.len() implies {
            let e = #[trigger] cur[k];
            &&& 0 <= e.0 < upto
            &&& 0 <= e.1 < g[e.0].len()
            &&& e.2 == g[e.0][e.1]
            &&& e.2 != 0
        } by {
            if k < prev.len() {
                assert(cur[k] == prev[k]);
            } else {
                assert(cur[k] == rt[k - prev.len()]);
            }
        }
        assert forall|a: int, b: int| 0 <= a < b < cur.len() implies cell_before(#[trigger] cur[a], #[trigger] cur[b]) by {
            if b < prev.len() {
                assert(cur[a] == prev[a] && cur[b] == prev[b]);
            } else if a < prev.len() {
                assert(cur[a] == prev[a] && cur[b] == rt[b - prev.len()]);
            } else {
                assert(cur[a] == rt[a - prev.len()] && cur[b] == rt[b - prev.len()]);
            }
        }
        assert forall|r: int, c: int| 0 <= r < upto && 0 <= c < g[r].len() && #[trigger] g[r][c] != 0
            implies cur.contains((r, c, g[r][c])) by {
            if r < upto - 1 {
                let k = choose|k: int| 0 <= k < prev.len() && prev[k] == (r, c, g[r][c]);
                assert(cur[k] == prev[k]);
            } else {
                assert(row[c] == g[r][c]);
                assert(rt.contains((r, c, row[c])));
                let k = choose|k: int| 0 <= k < rt.len() && rt[k] == (r, c, g[r][c]);
                assert(cur[prev.len() + k] == rt[k]);
            }
        }
    }
}

/// A visible layer draws every non-empty cell of its grid exactly once, as
/// (row, column, id), row by row and left to right, and nothing else; a
/// hidden layer draws nothing.
pub proof fn law_visible_tiles_complete(vis: bool, g: Seq<Seq<u32>>)
    ensures
        !vis ==> spec_visible_tiles(vis, g).len() == 0,
        vis ==> forall|r: int, c: int| 0 <= r < g.len() && 0 <= c < g[r].len() && #[trigger] g[r][c] != 0
            ==> spec_visible_tiles(vis, g).contains((r, c, g[r][c])),
        forall|k: int| 0 <= k < spec_visible_tiles(vis, g).len() ==> {
            let e = #[trigger] spec_visible_tiles(vis, g)[k];
            &&& 0 <= e.0 < g.len()
            &&& 0 <= e.1 < g[e.0].len()
            &&& e.2 == g[e.0][e.1]
            &&& e.2 != 0
        },
        forall|a: int, b: int| 0 <= a < b < spec_visible_tiles(vis, g).len()
            ==> cell_before(#[trigger] spec_visible_tiles(vis, g)[a], #[trigger] spec_visible_tiles(vis, g)[b]),
        spec_visible_tiles(vis, g).no_duplicates(),
{
    lemma_grid_tiles(g, g.len() as int);
    let v = spec_visible_tiles(vis, g);
    assert forall|a: int, b: int| 0 <= a < b < v.len() implies v[a] != v[b] by {
        assert(cell_before(v[a], v[b]));
    }
}

/// Saving a layer into a scene and loading it back gives the same layer.
pub proof fn law_layer_save_load_roundtrip(l: TL)
    ensures
        data_to_layer(layer_to_data(l)) == l,
{
}

/// Paint `tile` into the first visible layer at the given cell, when the
/// cell (which may come out negative from a click left of or above the
/// map) lies within that layer. Returns the index of the layer painted.
pub fn paint_first_visible(layers: &mut Vec<TL>, row: i32, col: i32, tile: u32) -> (painted: Option<usize>)
    requires
        forall|i: int| 0 <= i < old(layers).len() ==> (#[trigger] old(layers)@[i]).rows <= old(layers)@[i].tiles.len()
            && forall|r: int| 0 <= r < old(layers)@[i].rows ==> old(layers)@[i].cols <= (#[trigger] old(layers)@[i].tiles@[r]).len(),
    ensures
        final(layers).len() == old(layers).len(),
        painted matches Some(i) ==> {
            &&& 0 <= i < old(layers).len()
            &&& old(layers)@[i as int].vis
            &&& forall|j: int| 0 <= j < i ==> !(#[trigger] old(layers)@[j]).vis
            &&& row >= 0 && col >= 0
            &&& row < old(layers)@[i as int].rows && col < old(layers)@[i as int].cols
            &&& grid_view(final(layers)@[i as int].tiles@) == grid_view(old(layers)@[i as int].tiles@).update(
                row as int, grid_view(old(layers)@[i as int].tiles@)[row as int].update(col as int, tile))
            &&& forall|j: int| 0 <= j < old(layers).len() && j != i ==> #[trigger] final(layers)@[j] == old(layers)@[j]
        },
        painted is None ==> final(layers)@ == old(layers)@,
        painted is None ==> (row < 0 || col < 0 || forall|j: int| 0 <= j < old(layers).len() ==> !(#[trigger] old(layers)@[j]).vis
            || exists|i: int| 0 <= i < old(layers).len() && (#[trigger] old(layers)@[i]).vis
                && (forall|j: int| 0 <= j < i ==> !(#[trigger] old(layers)@[j]).vis)
                && !(row < old(layers)@[i].rows && col < old(layers)@[i].cols)),
{
    if row < 0 || col < 0 {
        return None;
    }
    let mut i: usize = 0;
    while i < layers.len()
        invariant
            0 <= i <= layers.len(),
            layers@ == old(layers)@,
            row >= 0,
            col >= 0,
            forall|j: int| 0 <= j < i ==> !(#[trigger] layers@[j]).vis,
            forall|k: int| 0 <= k < layers.len() ==> (#[trigger] layers@[k]).rows <= layers@[k].tiles.len()
                && forall|r: int| 0 <= r < layers@[k].rows ==> layers@[k].cols <= (#[trigger] layers@[k].tiles@[r]).len(),
        decreases layers.len() - i,
    {
        if layers[i].vis {
            let (r, c) = (row as usize, col as usize);
            if r < layers[i].rows && c < layers[i].cols {
                let ghost before = layers@;
                let mut layer = layers.remove(i);
                assert(layer == before[i as int]);
                layer.paint(r, c, tile);
                layers.insert(i, layer);
                assert forall|j: int| 0 <= j < before.len() && j != i implies #[trigger] layers@[j] == before[j] by {
                    if j < i {
                        assert(layers@[j] == before[j]);
                    } else {
                        assert(layers@[j] == before[j]);
                    }
                }
                return Some(i);
            }
            return None;
        }
        i = i + 1;
    }
    None
}

/// The palette entry for tile id `tid`: `tid - 1` (id 0 as 1), clamped to
/// the last entry of a palette of `palette_len` colours.
pub fn palette_index(tid: u32, palette_len: usize) -> (i: usize)
    ensures
        i == spec_palette_index(tid as nat, palette_len as nat),
        palette_len > 0 ==> i < palette_len,
{
    let t = tid as usize;
    let i = if t >= 1 { t - 1 } else { 0 };
    let last = if palette_len >= 1 { palette_len - 1 } else { 0 };
    if i <= last { i } else { last }
}

/// Tile id `t` (from 1) uses palette entry `t - 1` while the palette has
/// one; ids beyond the palette use its last entry, and id 0 uses the first.
pub proof fn law_palette_index(tid: nat, palette_len: nat)
    requires
        palette_len > 0,
    ensures
        spec_palette_index(tid, palette_len) < palette_len,
        1 <= tid <= palette_len ==> spec_palette_index(tid, palette_len) == tid - 1,
        tid > palette_len ==> spec_palette_index(tid, palette_len) == palette_len - 1,
        tid == 0 ==> spec_palette_index(tid, palette_len) == 0,
{
}

} // verus!
