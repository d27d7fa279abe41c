//! Scene compositing: a grid of named tiles is laid out into one buffer,
//! each texture scaled into its tile-size cell by nearest-neighbor sampling.
//!
//! A tile whose name has no texture, and a texture with a zero dimension,
//! leave their cell at the default (fully transparent) pixel.

use vstd::prelude::*;

use crate::Pixel;
use crate::color::zero_pixel;
use crate::grid::{PixelBuffer, grid_width};

verus! {

/// The smaller of two integers.
pub open spec fn imin(a: int, b: int) -> int {
    if a < b {
        a
    } else {
        b
    }
}

/// A table of named textures: one pixel buffer per distinct name.
pub struct TextureTable {
    pub names: Vec<String>,
    pub bufs: Vec<PixelBuffer>,
}

impl TextureTable {
    /// One buffer per name, names distinct, every buffer well-formed.
    pub open spec fn wf(self) -> bool {
        &&& self.names@.len() == self.bufs@.len()
        &&& forall|i: int, j: int|
            0 <= i < j < self.names@.len() ==> self.names@[i]@ != self.names@[j]@
        &&& forall|i: int| 0 <= i < self.bufs@.len() ==> self.bufs@[i].wf()
    }

    /// Whether some entry carries this name.
    pub open spec fn contains(self, name: Seq<char>) -> bool {
        exists|i: int| 0 <= i < self.names@.len() && self.names@[i]@ == name
    }

    /// The buffer filed under this name (well-defined when names are distinct).
    pub open spec fn buf_for(self, name: Seq<char>) -> PixelBuffer {
        self.bufs@[choose|i: int| 0 <= i < self.names@.len() && self.names@[i]@ == name]
    }

    /// Looks a name up by linear search.
    pub fn get(&self, name: &String) -> (r: Option<&PixelBuffer>)
        requires
            self.wf(),
        ensures
            match r {
                Some(b) => self.contains(name@) && *b == self.buf_for(name@),
                None => !self.contains(name@),
            },
    {
        let mut i: usize = 0;
        while i < self.names.len()
            invariant
                self.wf(),
                i <= self.names@.len(),
                forall|j: int| 0 <= j < i ==> self.names@[j]@ != name@,
            decreases self.names@.len() - i,
        {
            if self.names[i].eq(name) {
                return Some(&self.bufs[i]);
            }
            i = i + 1;
        }
        None
    }
}

/// The source pixel nearest-neighbor sampling picks for local offset
/// `(px, py)` of a tile-size cell: downward-floor scaling, clamped to the
/// texture's last column and row.
pub open spec fn sample_spec(tex: PixelBuffer, ts: int, px: int, py: int) -> Pixel {
    tex.pixel(
        imin(px * tex.width / ts, tex.width - 1),
        imin(py * tex.height / ts, tex.height - 1),
    )
}

/// The pixel the composited scene holds at `(x, y)`: the sampled texture of
/// the tile cell the coordinate falls in, or the default pixel when the cell
/// is missing from a ragged row, its name is unknown, or its texture has a
/// zero dimension.
pub open spec fn scene_pixel(
    t: TextureTable,
    g: Seq<Seq<Seq<char>>>,
    ts: int,
    x: int,
    y: int,
) -> Pixel {
    let gx = x / ts;
    let gy = y / ts;
    if gy < g.len() && gx < g[gy].len() && gx < grid_width(g) && t.contains(g[gy][gx]) {
        let tex = t.buf_for(g[gy][gx]);
        if tex.width > 0 && tex.height > 0 {
            sample_spec(tex, ts, x % ts, y % ts)
        } else {
            zero_pixel()
        }
    } else {
        zero_pixel()
    }
}

pub proof fn lemma_div_bound(a: int, b: int, c: int)
    requires
        0 <= a,
        a < b * c,
        0 < c,
    ensures
        a / c < b,
        0 <= a / c,
{
    vstd::arithmetic::div_mod::lemma_fundamental_div_mod(a, c);
    assert(c * (a / c) <= a);
    assert(a / c < b) by (nonlinear_arith)
        requires c * (a / c) < b * c, 0 < c;
    assert(0 <= a / c) by (nonlinear_arith)
        requires c * (a / c) + a % c == a, 0 <= a % c < c, 0 <= a, 0 < c;
}

fn sample(tex: &PixelBuffer, ts: usize, px: usize, py: usize) -> (r: Pixel)
    requires
        tex.wf(),
        ts >= 1,
        tex.width > 0,
        tex.height > 0,
    ensures
        r == sample_spec(*tex, ts as int, px as int, py as int),
{
    proof {
        let cap: int = 0xffff_ffff_ffff_ffff;
        assert(px * tex.width <= cap * cap) by (nonlinear_arith)
            requires 0 <= px <= cap, 0 <= tex.width <= cap;
        assert(py * tex.height <= cap * cap) by (nonlinear_arith)
            requires 0 <= py <= cap, 0 <= tex.height <= cap;
    }
    let sx128 = (px as u128) * (tex.width as u128) / (ts as u128);
    let sy128 = (py as u128) * (tex.height as u128) / (ts as u128);
    let sx: usize = if sx128 > (tex.width - 1) as u128 {
        tex.width - 1
    } else {
        sx128 as usize
    };
    let sy: usize = if sy128 > (tex.height - 1) as u128 {
        tex.height - 1
    } else {
        sy128 as usize
    };
    assert(sx as int == imin(px as int * tex.width / ts as int, tex.width - 1));
    assert(sy as int == imin(py as int * tex.height / ts as int, tex.height - 1));
    let n = tex.data.len();
    proof {
        assert(sy * tex.width + sx < tex.width * tex.height) by (nonlinear_arith)
            requires sx < tex.width, sy < tex.height, 0 < tex.width, 0 < tex.height;
        assert(n == tex.width * tex.height);
    }
    tex.data[sy * tex.width + sx]
}

/// Composites a tile grid against a texture table: the result is
/// `(gridWidth*tileSize) x (gridHeight*tileSize)`, and every destination
/// pixel is exactly what `scene_pixel` says.
pub fn composite(grid: &Vec<Vec<String>>, table: &TextureTable, tile_size: usize) -> (b:
    PixelBuffer)
    requires
        table.wf(),
        tile_size >= 1,
        grid_width(grid.deep_view()) * tile_size <= usize::MAX,
        grid.deep_view().len() * tile_size <= usize::MAX,
        (grid_width(grid.deep_view()) * tile_size) * (grid.deep_view().len() * tile_size)
            <= usize::MAX,
    ensures
        b.wf(),
        b.width == grid_width(grid.deep_view()) * tile_size,
        b.height == grid.deep_view().len() * tile_size,
        forall|x: int, y: int|
            0 <= x < b.width && 0 <= y < b.height ==> b.pixel(x, y) == scene_pixel(
                *table,
                grid.deep_view(),
                tile_size as int,
                x,
                y,
            ),
{
    let ghost g = grid.deep_view();
    let grid_height = grid.len();
    let gw = if grid_height > 0 {
        grid[0].len()
    } else {
        0
    };
    assert(gw == grid_width(g));
    let out_w = gw * tile_size;
    let out_h = grid_height * tile_size;
    let mut data: Vec<Pixel> = Vec::new();
    let mut y: usize = 0;
    proof {
        assert(y * out_w == 0) by (nonlinear_arith)
            requires y == 0;
    }
    while y < out_h
        invariant
            y <= out_h,
            g == grid.deep_view(),
            table.wf(),
            tile_size >= 1,
            gw == grid_width(g),
            grid_height == g.len(),
            out_w == gw * tile_size,
            out_h == grid_height * tile_size,
            out_w * out_h <= usize::MAX,
            data@.len() == y * out_w,
            forall|xx: int, yy: int|
                0 <= xx < out_w && 0 <= yy < y ==> data@[yy * out_w + xx] == scene_pixel(
                    *table,
                    g,
                    tile_size as int,
                    xx,
                    yy,
                ),
        decreases out_h - y,
    {
        proof {
            assert((y + 1) * out_w == y * out_w + out_w) by (nonlinear_arith);
            assert((y + 1) * out_w <= out_h * out_w) by (nonlinear_arith)
                requires y + 1 <= out_h, 0 <= out_w;
            assert(out_h * out_w == out_w * out_h) by (nonlinear_arith);
            lemma_div_bound(y as int, grid_height as int, tile_size as int);
        }
        let gy = y / tile_size;
        let py = y % tile_size;
        let row = &grid[gy];
        let mut x: usize = 0;
        while x < out_w
            invariant
                x <= out_w,
                y < out_h,
                g == grid.deep_view(),
                table.wf(),
                tile_size >= 1,
                gw == grid_width(g),
                grid_height == g.len(),
                out_w == gw * tile_size,
                out_h == grid_height * tile_size,
                y * out_w + out_w <= usize::MAX,
                gy == y as int / tile_size as int,
                py == y as int % tile_size as int,
                gy < grid_height,
                row@ == grid@[gy as int]@,
                data@.len() == y * out_w + x,
                forall|xx: int, yy: int|
                    0 <= xx < out_w && 0 <= yy < y ==> data@[yy * out_w + xx] == scene_pixel(
                        *table,
                        g,
                        tile_size as int,
                        xx,
                        yy,
                    ),
                forall|xx: int|
                    0 <= xx < x ==> data@[y * out_w + xx] == scene_pixel(
                        *table,
                        g,
                        tile_size as int,
                        xx,
                        y as int,
                    ),
            decreases out_w - x,
        {
            proof {
                lemma_div_bound(x as int, gw as int, tile_size as int);
            }
            let gx = x / tile_size;
            let px = x % tile_size;
            let p: Pixel = if gx < row.len() && gx < gw {
                assert(g[gy as int][gx as int] == row@[gx as int]@);
                match table.get(&row[gx]) {
                    Some(tex) => {
                        if tex.width > 0 && tex.height > 0 {
                            sample(tex, tile_size, px, py)
                        } else {
                            Pixel { r: 0, g: 0, b: 0, a: 0 }
                        }
                    },
                    None => Pixel { r: 0, g: 0, b: 0, a: 0 },
                }
            } else {
                assert(g[gy as int].len() == grid@[gy as int]@.len());
                Pixel { r: 0, g: 0, b: 0, a: 0 }
            };
            assert(p == scene_pixel(*table, g, tile_size as int, x as int, y as int));
            let ghost pre = data@;
            data.push(p);
            assert forall|xx: int, yy: int|
                0 <= xx < out_w && 0 <= yy < y implies #[trigger] data@[yy * out_w + xx]
                == scene_pixel(*table, g, tile_size as int, xx, yy) by {
                assert(yy * out_w + out_w <= y * out_w) by (nonlinear_arith)
                    requires yy + 1 <= y, 0 <= out_w;
                assert(data@[yy * out_w + xx] == pre[yy * out_w + xx]);
            }
            x = x + 1;
        }
        y = y + 1;
    }
    proof {
        assert(out_h * out_w == out_w * out_h) by (nonlinear_arith);
    }
    PixelBuffer { width: out_w, height: out_h, data }
}

} // verus!
