//! Rectangular pixel buffers and their construction from 2D grids of color
//! tokens.
//!
//! A buffer is row-major with origin at the top left. The grid's height is
//! its number of rows and its width the length of its first row; cells a
//! ragged row does not supply stay at the default (fully transparent) pixel.

use vstd::prelude::*;

use crate::Pixel;
use crate::color::{parse_hex_color, parsed_color, zero_pixel};

verus! {

/// A width x height grid of pixels, row-major, origin top-left.
pub struct PixelBuffer {
    pub width: usize,
    pub height: usize,
    pub data: Vec<Pixel>,
}

impl PixelBuffer {
    /// The buffer holds exactly one pixel per cell.
    pub open spec fn wf(self) -> bool {
        self.data@.len() == self.width * self.height
    }

    /// The pixel at column `x`, row `y`.
    pub open spec fn pixel(self, x: int, y: int) -> Pixel {
        self.data@[y * self.width + x]
    }
}

/// The width of a token grid: the length of its first row, 0 when empty.
pub open spec fn grid_width(g: Seq<Seq<Seq<char>>>) -> int {
    if g.len() > 0 {
        g[0].len() as int
    } else {
        0
    }
}

/// The height of a token grid: its number of rows.
pub open spec fn grid_height(g: Seq<Seq<Seq<char>>>) -> int {
    g.len() as int
}

/// The pixel cell `(x, y)` of the built buffer receives: the parsed token
/// where row `y` supplies column `x`, the default pixel otherwise.
pub open spec fn built_pixel(g: Seq<Seq<Seq<char>>>, x: int, y: int) -> Pixel {
    if 0 <= y < g.len() && 0 <= x < g[y].len() {
        parsed_color(g[y][x])
    } else {
        zero_pixel()
    }
}

/// Builds a pixel buffer from a grid of color tokens: dimensions come from
/// the row count and the first row's length, every in-range token is parsed,
/// and every other cell holds the default pixel.
pub fn build_pixel_buffer(rows: &Vec<Vec<String>>) -> (b: PixelBuffer)
    requires
        grid_width(rows.deep_view()) * grid_height(rows.deep_view()) <= usize::MAX,
    ensures
        b.wf(),
        b.width == grid_width(rows.deep_view()),
        b.height == grid_height(rows.deep_view()),
        forall|x: int, y: int|
            0 <= x < b.width && 0 <= y < b.height ==> b.pixel(x, y) == built_pixel(
                rows.deep_view(),
                x,
                y,
            ),
{
    let ghost g = rows.deep_view();
    let height = rows.len();
    let width = if height > 0 {
        rows[0].len()
    } else {
        0
    };
    assert(width == grid_width(g));
    let mut data: Vec<Pixel> = Vec::new();
    let mut y: usize = 0;
    while y < height
        invariant
            y <= height,
            g == rows.deep_view(),
            width == grid_width(g),
            height == grid_height(g),
            width * height <= usize::MAX,
            data@.len() == y * width,
            forall|xx: int, yy: int|
                0 <= xx < width && 0 <= yy < y ==> data@[yy * width + xx] == built_pixel(
                    g,
                    xx,
                    yy,
                ),
        decreases height - y,
    {
        proof {
            assert((y + 1) * width == y * width + width) by (nonlinear_arith);
            assert((y + 1) * width <= height * width) by (nonlinear_arith)
                requires y + 1 <= height, 0 <= width;
            assert(height * width == width * height) by (nonlinear_arith);
        }
        let row = &rows[y];
        let mut x: usize = 0;
        while x < width
            invariant
                x <= width,
                g == rows.deep_view(),
                width == grid_width(g),
                height == grid_height(g),
                y < height,
                row@ == rows@[y as int]@,
                y * width + width <= usize::MAX,
                data@.len() == y * width + x,
                forall|xx: int, yy: int|
                    0 <= xx < width && 0 <= yy < y ==> data@[yy * width + xx] == built_pixel(
                        g,
                        xx,
                        yy,
                    ),
                forall|xx: int|
                    0 <= xx < x ==> data@[y * width + xx] == built_pixel(g, xx, y as int),
            decreases width - x,
        {
            let p = if x < row.len() {
                let p = parse_hex_color(row[x].as_str());
                assert(g[y as int][x as int] == rows@[y as int]@[x as int]@);
                p
            } else {
                assert(g[y as int].len() == rows@[y as int]@.len());
                Pixel { r: 0, g: 0, b: 0, a: 0 }
            };
            let ghost pre = data@;
            data.push(p);
            assert forall|xx: int, yy: int|
                0 <= xx < width && 0 <= yy < y implies #[trigger] data@[yy * width + xx]
                == built_pixel(g, xx, yy) by {
                assert(yy * width + width <= y * width) by (nonlinear_arith)
                    requires yy + 1 <= y, 0 <= width;
                assert(data@[yy * width + xx] == pre[yy * width + xx]);
            }
            x = x + 1;
        }
        y = y + 1;
    }
    proof {
        assert(height * width == width * height) by (nonlinear_arith);
    }
    PixelBuffer { width, height, data }
}

} // verus!
