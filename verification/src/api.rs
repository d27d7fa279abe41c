//! The three entry points: one texture as PNG bytes, a composited scene as
//! PNG bytes, and a batch of textures as a JSON object of Base64 PNG texts.

use vstd::prelude::*;

use crate::{GenError, Pixel};
use crate::base64::b64_of;
use crate::codec::{
    encode_png_raw, has_png_magic, json_grid_of, json_textures_of, pairs_to_map,
    parse_pixel_grid, parse_texture_table, png_bytes_of, string_from_chars,
};
use crate::color::zero_pixel;
use crate::grid::{PixelBuffer, build_pixel_buffer, built_pixel, grid_height, grid_width};
use crate::json_out::{json_object, json_object_text};
use crate::scene::{TextureTable, composite, imin, scene_pixel};

verus! {

/// Channel `k` of a pixel, in RGBA order.
pub open spec fn channel_byte(p: Pixel, k: int) -> u8 {
    if k == 0 {
        p.r
    } else if k == 1 {
        p.g
    } else if k == 2 {
        p.b
    } else {
        p.a
    }
}

/// The row-major RGBA byte stream of a `w` x `h` pixel field: four bytes per
/// pixel, rows top to bottom.
pub open spec fn pixels_rgba(w: int, h: int, px: spec_fn(int, int) -> Pixel) -> Seq<u8> {
    Seq::new((4 * w * h) as nat, |i: int| channel_byte(px((i / 4) % w, (i / 4) / w), i % 4))
}

/// The RGBA byte stream of the buffer a token grid builds.
pub open spec fn grid_rgba(g: Seq<Seq<Seq<char>>>) -> Seq<u8> {
    pixels_rgba(grid_width(g), grid_height(g), (|x: int, y: int| built_pixel(g, x, y)))
}

/// Whether a token grid's dimensions fit the encoder: each within `u32`, the
/// pixel count and the byte count within `usize`.
pub open spec fn texture_dims_ok(g: Seq<Seq<Seq<char>>>) -> bool {
    &&& grid_width(g) <= u32::MAX
    &&& grid_height(g) <= u32::MAX
    &&& grid_width(g) * grid_height(g) <= usize::MAX
    &&& 4 * (grid_width(g) * grid_height(g)) <= usize::MAX
}

/// Whether a token grid encodes as a PNG: dimensions in range and, as the
/// PNG format demands, neither of them zero.
pub open spec fn grid_encodable(g: Seq<Seq<Seq<char>>>) -> bool {
    &&& texture_dims_ok(g)
    &&& grid_width(g) >= 1
    &&& grid_height(g) >= 1
}

proof fn lemma_quarter_bound(i: int, n: int)
    requires
        0 <= i < 4 * n,
    ensures
        0 <= i / 4 < n,
{
    vstd::arithmetic::div_mod::lemma_fundamental_div_mod(i, 4);
}

/// Two pixel fields that agree on `[0,w) x [0,h)` flatten to the same bytes.
pub proof fn lemma_pixels_rgba_congruence(
    w: int,
    h: int,
    f1: spec_fn(int, int) -> Pixel,
    f2: spec_fn(int, int) -> Pixel,
)
    requires
        0 <= w,
        0 <= h,
        forall|x: int, y: int| 0 <= x < w && 0 <= y < h ==> #[trigger] f1(x, y) == #[trigger] f2(x, y),
    ensures
        pixels_rgba(w, h, f1) =~= pixels_rgba(w, h, f2),
{
    assert forall|i: int| 0 <= i < 4 * w * h implies pixels_rgba(w, h, f1)[i] == pixels_rgba(
        w,
        h,
        f2,
    )[i] by {
        let j = i / 4;
        assert(4 * w * h == 4 * (w * h)) by (nonlinear_arith);
        lemma_quarter_bound(i, w * h);
        assert(w > 0) by (nonlinear_arith)
            requires 0 <= j < w * h, 0 <= w, 0 <= h;
        crate::scene::lemma_div_bound(j, h, w);
        assert(0 <= j % w < w);
        assert(f1(j % w, j / w) == f2(j % w, j / w));
    }
}

/// Flattens a buffer into its row-major RGBA byte stream.
pub fn to_rgba_bytes(b: &PixelBuffer) -> (r: Vec<u8>)
    requires
        b.wf(),
        4 * (b.width * b.height) <= usize::MAX,
    ensures
        r@ == pixels_rgba(b.width as int, b.height as int, (|x: int, y: int| b.pixel(x, y))),
{
    let n = b.data.len();
    let mut out: Vec<u8> = Vec::new();
    let mut k: usize = 0;
    while k < n
        invariant
            b.wf(),
            n == b.data@.len(),
            k <= n,
            out@.len() == 4 * k,
            forall|i: int| 0 <= i < out@.len() ==> out@[i] == channel_byte(b.data@[i / 4], i % 4),
        decreases n - k,
    {
        let p = b.data[k];
        out.push(p.r);
        out.push(p.g);
        out.push(p.b);
        out.push(p.a);
        assert forall|i: int| 0 <= i < out@.len() implies out@[i] == channel_byte(
            b.data@[i / 4],
            i % 4,
        ) by {
            if i >= 4 * k {
                assert(i / 4 == k);
            }
        }
        k = k + 1;
    }
    proof {
        let f = (|x: int, y: int| b.pixel(x, y));
        assert(out@.len() == 4 * (b.width * b.height));
        assert(4 * (b.width * b.height) == 4 * b.width * b.height) by (nonlinear_arith);
        let w = b.width as int;
        let h = b.height as int;
        assert forall|i: int| 0 <= i < out@.len() implies out@[i] == channel_byte(
            f((i / 4) % w, (i / 4) / w),
            i % 4,
        ) by {
            let j = i / 4;
            lemma_quarter_bound(i, w * h);
            assert(w > 0) by (nonlinear_arith)
                requires 0 <= j < w * h, 0 <= w, 0 <= h;
            vstd::arithmetic::div_mod::lemma_fundamental_div_mod(j, w);
            assert((j / w) * w + j % w == j) by (nonlinear_arith)
                requires w * (j / w) + j % w == j;
            assert(f(j % w, j / w) == b.data@[j]);
        }
        assert(out@ =~= pixels_rgba(
            b.width as int,
            b.height as int,
            (|x: int, y: int| b.pixel(x, y)),
        ));
    }
    out
}

/// Whether a buffer is exactly what building this token grid yields.
pub open spec fn buf_matches(b: PixelBuffer, tg: Seq<Seq<Seq<char>>>) -> bool {
    &&& b.wf()
    &&& b.width == grid_width(tg)
    &&& b.height == grid_height(tg)
    &&& forall|x: int, y: int|
        0 <= x < b.width && 0 <= y < b.height ==> b.pixel(x, y) == built_pixel(tg, x, y)
}

/// Whether a texture table holds exactly the built form of each grid in the
/// mapping: same names, and under each name the buffer the grid builds.
pub open spec fn table_matches(t: TextureTable, m: Map<Seq<char>, Seq<Seq<Seq<char>>>>) -> bool {
    &&& t.wf()
    &&& forall|n: Seq<char>| #[trigger] t.contains(n) <==> m.contains_key(n)
    &&& forall|n: Seq<char>| #[trigger] m.contains_key(n) ==> buf_matches(t.buf_for(n), m[n])
}

/// Whether every texture grid of the mapping has a pixel count a buffer can
/// hold.
pub open spec fn textures_dims_ok(m: Map<Seq<char>, Seq<Seq<Seq<char>>>>) -> bool {
    forall|n: Seq<char>| #[trigger] m.contains_key(n) ==> grid_width(m[n]) * grid_height(m[n])
        <= usize::MAX
}

/// The pixel the composited scene holds at `(x, y)`, said over the texture
/// mapping itself: the nearest-neighbor sample of the built texture of the
/// cell's name, or the default pixel for a missing cell, an unknown name, or
/// a zero-dimension texture.
pub open spec fn scene_pixel_of(
    m: Map<Seq<char>, Seq<Seq<Seq<char>>>>,
    g: Seq<Seq<Seq<char>>>,
    ts: int,
    x: int,
    y: int,
) -> Pixel {
    let gx = x / ts;
    let gy = y / ts;
    if gy < g.len() && gx < g[gy].len() && gx < grid_width(g) && m.contains_key(g[gy][gx]) {
        let tg = m[g[gy][gx]];
        let tw = grid_width(tg);
        let th = grid_height(tg);
        if tw > 0 && th > 0 {
            built_pixel(tg, imin((x % ts) * tw / ts, tw - 1), imin((y % ts) * th / ts, th - 1))
        } else {
            zero_pixel()
        }
    } else {
        zero_pixel()
    }
}

/// A tile whose name is not in the texture mapping leaves every pixel of its
/// cell at the default (fully transparent) pixel.
pub proof fn lemma_unknown_tile_default(
    m: Map<Seq<char>, Seq<Seq<Seq<char>>>>,
    g: Seq<Seq<Seq<char>>>,
    ts: int,
    x: int,
    y: int,
)
    requires
        ts >= 1,
        0 <= x,
        0 <= y,
        !m.contains_key(g[y / ts][x / ts]),
    ensures
        scene_pixel_of(m, g, ts, x, y) == zero_pixel(),
{
}

/// A texture with a zero dimension is treated as absent: every pixel of a
/// cell that names it stays at the default pixel.
pub proof fn lemma_zero_dim_tile_default(
    m: Map<Seq<char>, Seq<Seq<Seq<char>>>>,
    g: Seq<Seq<Seq<char>>>,
    ts: int,
    x: int,
    y: int,
)
    requires
        ts >= 1,
        0 <= x,
        0 <= y,
        m.contains_key(g[y / ts][x / ts]),
        grid_width(m[g[y / ts][x / ts]]) == 0 || grid_height(m[g[y / ts][x / ts]]) == 0,
    ensures
        scene_pixel_of(m, g, ts, x, y) == zero_pixel(),
{
}

/// A sequence of pairs with distinct keys denotes the mapping that holds
/// each key with its value, and nothing else.
pub proof fn lemma_pairs_to_map(ps: Seq<(Seq<char>, Seq<Seq<Seq<char>>>)>)
    requires
        forall|i: int, j: int| 0 <= i < j < ps.len() ==> ps[i].0 != ps[j].0,
    ensures
        forall|k: int|
            0 <= k < ps.len() ==> pairs_to_map(ps).contains_key(#[trigger] ps[k].0),
        forall|k: int|
            0 <= k < ps.len() ==> pairs_to_map(ps)[#[trigger] ps[k].0] == ps[k].1,
        forall|n: Seq<char>|
            #[trigger] pairs_to_map(ps).contains_key(n) ==> exists|k: int|
                0 <= k < ps.len() && ps[k].0 == n,
    decreases ps.len(),
{
    if ps.len() > 0 {
        let pre = ps.drop_last();
        assert(forall|k: int| 0 <= k < pre.len() ==> pre[k] == ps[k]);
        lemma_pairs_to_map(pre);
        assert forall|k: int|
            0 <= k < ps.len() implies pairs_to_map(ps).contains_key(#[trigger] ps[k].0)
            && pairs_to_map(ps)[ps[k].0] == ps[k].1 by {
            if k < ps.len() - 1 {
                assert(ps[k].0 != ps[ps.len() - 1].0);
                assert(pairs_to_map(pre).contains_key(ps[k].0));
                assert(pairs_to_map(pre)[ps[k].0] == ps[k].1);
            }
        }
        assert forall|n: Seq<char>|
            #[trigger] pairs_to_map(ps).contains_key(n) implies exists|k: int|
            0 <= k < ps.len() && ps[k].0 == n by {
            if n == ps.last().0 {
                assert(0 <= ps.len() - 1 < ps.len() && ps[ps.len() - 1].0 == n);
            } else {
                assert(pairs_to_map(pre).contains_key(n));
                let k = choose|k: int| 0 <= k < pre.len() && pre[k].0 == n;
                assert(0 <= k < ps.len() && ps[k].0 == n);
            }
        }
    }
}

/// A table that matches a mapping composites exactly as the mapping says.
pub proof fn lemma_scene_pixel_of(
    t: TextureTable,
    m: Map<Seq<char>, Seq<Seq<Seq<char>>>>,
    g: Seq<Seq<Seq<char>>>,
    ts: int,
    x: int,
    y: int,
)
    requires
        table_matches(t, m),
        ts >= 1,
        0 <= x,
        0 <= y,
    ensures
        scene_pixel(t, g, ts, x, y) == scene_pixel_of(m, g, ts, x, y),
{
    let gx = x / ts;
    let gy = y / ts;
    if gy < g.len() && gx < g[gy].len() && gx < grid_width(g) && t.contains(g[gy][gx]) {
        let name = g[gy][gx];
        let tex = t.buf_for(name);
        let tg = m[name];
        assert(buf_matches(tex, tg));
        let tw = grid_width(tg);
        let th = grid_height(tg);
        if tw > 0 && th > 0 {
            let px = x % ts;
            let py = y % ts;
            assert(0 <= px < ts && 0 <= py < ts);
            assert(px * tw < ts * tw) by (nonlinear_arith)
                requires 0 <= px < ts, 0 < tw;
            assert(py * th < ts * th) by (nonlinear_arith)
                requires 0 <= py < ts, 0 < th;
            crate::scene::lemma_div_bound(px * tw, tw, ts);
            crate::scene::lemma_div_bound(py * th, th, ts);
            let sx = imin(px * tw / ts, tw - 1);
            let sy = imin(py * th / ts, th - 1);
            assert(0 <= sx < tw && 0 <= sy < th);
            assert(tex.pixel(sx, sy) == built_pixel(tg, sx, sy));
        }
    }
}

/// Builds one buffer per named texture grid. `None` exactly when some
/// texture's pixel count overflows; otherwise the table matches the mapping
/// the pairs denote.
fn build_texture_table(pairs: &Vec<(String, Vec<Vec<String>>)>) -> (r: Option<TextureTable>)
    requires
        forall|i: int, j: int|
            0 <= i < j < pairs.deep_view().len() ==> pairs.deep_view()[i].0
                != pairs.deep_view()[j].0,
    ensures
        r is Some <==> textures_dims_ok(pairs_to_map(pairs.deep_view())),
        r matches Some(t) ==> table_matches(t, pairs_to_map(pairs.deep_view())),
{
    let ghost ps = pairs.deep_view();
    let ghost m = pairs_to_map(ps);
    proof {
        lemma_pairs_to_map(ps);
    }
    let mut names: Vec<String> = Vec::new();
    let mut bufs: Vec<PixelBuffer> = Vec::new();
    let mut i: usize = 0;
    while i < pairs.len()
        invariant
            ps == pairs.deep_view(),
            m == pairs_to_map(ps),
            forall|a: int, b: int| 0 <= a < b < ps.len() ==> ps[a].0 != ps[b].0,
            forall|k: int| 0 <= k < ps.len() ==> m.contains_key(#[trigger] ps[k].0),
            forall|k: int| 0 <= k < ps.len() ==> m[#[trigger] ps[k].0] == ps[k].1,
            forall|n: Seq<char>|
                #[trigger] m.contains_key(n) ==> exists|k: int| 0 <= k < ps.len() && ps[k].0 == n,
            i <= ps.len(),
            names@.len() == i,
            bufs@.len() == i,
            forall|k: int| 0 <= k < i ==> names@[k]@ == ps[k].0,
            forall|k: int| 0 <= k < i ==> buf_matches(#[trigger] bufs@[k], ps[k].1),
            forall|k: int|
                0 <= k < i ==> grid_width(#[trigger] ps[k].1) * grid_height(ps[k].1)
                    <= usize::MAX,
        decreases pairs.len() - i,
    {
        let pr = &pairs[i];
        let name = pr.0.clone();
        let tg = &pr.1;
        assert(tg.deep_view() == ps[i as int].1);
        let th = tg.len();
        let tw = if th > 0 {
            tg[0].len()
        } else {
            0
        };
        assert(tw == grid_width(ps[i as int].1) && th == grid_height(ps[i as int].1));
        match tw.checked_mul(th) {
            Some(_) => {},
            None => {
                assert(m.contains_key(ps[i as int].0) && m[ps[i as int].0] == ps[i as int].1);
                assert(!textures_dims_ok(m));
                return None;
            },
        }
        let buf = build_pixel_buffer(tg);
        names.push(name);
        bufs.push(buf);
        i = i + 1;
    }
    let t = TextureTable { names, bufs };
    assert forall|a: int, b: int|
        0 <= a < b < t.names@.len() implies t.names@[a]@ != t.names@[b]@ by {
        assert(t.names@[a]@ == ps[a].0 && t.names@[b]@ == ps[b].0);
        assert(ps[a].0 != ps[b].0);
    }
    assert forall|k: int| 0 <= k < t.bufs@.len() implies t.bufs@[k].wf() by {
        assert(buf_matches(t.bufs@[k], ps[k].1));
    }
    assert(t.wf());
    assert forall|n: Seq<char>| #[trigger] t.contains(n) implies m.contains_key(n) by {
        let k = choose|k: int| 0 <= k < t.names@.len() && t.names@[k]@ == n;
        assert(m.contains_key(ps[k].0));
    }
    assert forall|n: Seq<char>| #[trigger] m.contains_key(n) implies t.contains(n)
        && buf_matches(t.buf_for(n), m[n]) by {
        let k = choose|k: int| 0 <= k < ps.len() && ps[k].0 == n;
        assert(t.names@[k]@ == n);
        assert(t.contains(n));
        let kk = choose|kk: int| 0 <= kk < t.names@.len() && t.names@[kk]@ == n;
        assert(ps[kk].0 == n);
        assert(kk == k);
        assert(t.buf_for(n) == t.bufs@[k]);
        assert(m[n] == ps[k].1);
    }
    assert forall|n: Seq<char>| #[trigger] m.contains_key(n) implies grid_width(m[n])
        * grid_height(m[n]) <= usize::MAX by {
        let k = choose|k: int| 0 <= k < ps.len() && ps[k].0 == n;
        assert(grid_width(ps[k].1) * grid_height(ps[k].1) <= usize::MAX);
        assert(m[n] == ps[k].1);
    }
    Some(t)
}

/// Renders a JSON array of arrays of color tokens as PNG bytes.
///
/// Malformed input text gives `MalformedInput` and nothing else does; a grid
/// the encoder cannot take (a dimension zero or out of range) gives
/// `EncodeFailure`; every other parseable grid succeeds and yields exactly
/// the PNG serialization of its pixels, which opens with the PNG signature.
pub fn generate_texture_png(pixels_json: &str) -> (r: Result<Vec<u8>, GenError>)
    ensures
        r == Err::<Vec<u8>, GenError>(GenError::MalformedInput) <==> json_grid_of(
            pixels_json@,
        ) is None,
        r is Ok <==> (json_grid_of(pixels_json@) matches Some(g) && grid_encodable(g)),
        json_grid_of(pixels_json@) matches Some(g) && !texture_dims_ok(g) ==> r == Err::<
            Vec<u8>,
            GenError,
        >(GenError::EncodeFailure),
        r matches Ok(bytes) ==> json_grid_of(pixels_json@) matches Some(g) && {
            &&& texture_dims_ok(g)
            &&& bytes@ == png_bytes_of(grid_width(g) as u32, grid_height(g) as u32, grid_rgba(g))
            &&& has_png_magic(bytes@)
        },
{
    let rows = match parse_pixel_grid(pixels_json) {
        Ok(rows) => rows,
        Err(_) => {
            return Err(GenError::MalformedInput);
        },
    };
    let ghost g = json_grid_of(pixels_json@)->Some_0;
    let h = rows.len();
    let w = if h > 0 {
        rows[0].len()
    } else {
        0
    };
    assert(w == grid_width(g) && h == grid_height(g));
    if w > u32::MAX as usize || h > u32::MAX as usize {
        return Err(GenError::EncodeFailure);
    }
    let wh = match w.checked_mul(h) {
        Some(wh) => wh,
        None => {
            return Err(GenError::EncodeFailure);
        },
    };
    if wh > usize::MAX / 4 {
        return Err(GenError::EncodeFailure);
    }
    assert(texture_dims_ok(g));
    let buf = build_pixel_buffer(&rows);
    let bytes = to_rgba_bytes(&buf);
    proof {
        lemma_pixels_rgba_congruence(
            w as int,
            h as int,
            (|x: int, y: int| buf.pixel(x, y)),
            (|x: int, y: int| built_pixel(g, x, y)),
        );
        assert(bytes@ == grid_rgba(g));
    }
    match encode_png_raw(w as u32, h as u32, bytes) {
        Ok(png) => Ok(png),
        Err(_) => Err(GenError::EncodeFailure),
    }
}

/// Whether a scene over this tile grid fits the encoder: each dimension of
/// `gridWidth*tileSize` by `gridHeight*tileSize` within `u32`, the pixel
/// count and the byte count within `usize`.
pub open spec fn scene_dims_ok(g: Seq<Seq<Seq<char>>>, ts: int) -> bool {
    &&& grid_width(g) * ts <= u32::MAX
    &&& grid_height(g) * ts <= u32::MAX
    &&& (grid_width(g) * ts) * (grid_height(g) * ts) <= usize::MAX
    &&& 4 * ((grid_width(g) * ts) * (grid_height(g) * ts)) <= usize::MAX
}

/// Composites a JSON tile grid against a JSON texture table and renders the
/// scene as PNG bytes.
///
/// Either input failing to parse gives `MalformedInput` and nothing else
/// does; dimensions the encoder cannot take (a scene dimension zero or out
/// of range, or a texture too large to build) give `EncodeFailure`; every
/// other parseable pair of inputs succeeds and yields exactly the PNG
/// serialization of the composited scene, which opens with the PNG
/// signature.
pub fn generate_scene_png(tile_grid_json: &str, textures_json: &str, tile_size: u32) -> (r:
    Result<Vec<u8>, GenError>)
    requires
        tile_size >= 1,
    ensures
        r == Err::<Vec<u8>, GenError>(GenError::MalformedInput) <==> (json_grid_of(
            tile_grid_json@,
        ) is None || json_textures_of(textures_json@) is None),
        (r is Ok) <==> (json_grid_of(tile_grid_json@) matches Some(g) && json_textures_of(
            textures_json@,
        ) matches Some(m) && {
            &&& scene_dims_ok(g, tile_size as int)
            &&& textures_dims_ok(m)
            &&& grid_width(g) >= 1
            &&& grid_height(g) >= 1
        }),
        json_grid_of(tile_grid_json@) matches Some(g) && json_textures_of(
            textures_json@,
        ) matches Some(m) && !(scene_dims_ok(g, tile_size as int) && textures_dims_ok(m))
            ==> r == Err::<Vec<u8>, GenError>(GenError::EncodeFailure),
        r matches Ok(bytes) ==> json_grid_of(tile_grid_json@) matches Some(g)
            && json_textures_of(textures_json@) matches Some(m) && {
            &&& scene_dims_ok(g, tile_size as int)
            &&& textures_dims_ok(m)
            &&& bytes@ == png_bytes_of(
                (grid_width(g) * tile_size) as u32,
                (grid_height(g) * tile_size) as u32,
                pixels_rgba(
                    grid_width(g) * tile_size,
                    grid_height(g) * tile_size,
                    (|x: int, y: int| scene_pixel_of(m, g, tile_size as int, x, y)),
                ),
            )
            &&& has_png_magic(bytes@)
        },
{
    let grid = match parse_pixel_grid(tile_grid_json) {
        Ok(v) => v,
        Err(_) => {
            return Err(GenError::MalformedInput);
        },
    };
    let pairs = match parse_texture_table(textures_json) {
        Ok(v) => v,
        Err(_) => {
            return Err(GenError::MalformedInput);
        },
    };
    let ghost g = json_grid_of(tile_grid_json@)->Some_0;
    let ghost m = json_textures_of(textures_json@)->Some_0;
    let table = match build_texture_table(&pairs) {
        Some(t) => t,
        None => {
            return Err(GenError::EncodeFailure);
        },
    };
    let ts = tile_size as usize;
    let gh = grid.len();
    let gw = if gh > 0 {
        grid[0].len()
    } else {
        0
    };
    assert(gw == grid_width(g) && gh == grid_height(g));
    let sw = match gw.checked_mul(ts) {
        Some(v) => v,
        None => {
            return Err(GenError::EncodeFailure);
        },
    };
    if sw > u32::MAX as usize {
        return Err(GenError::EncodeFailure);
    }
    let sh = match gh.checked_mul(ts) {
        Some(v) => v,
        None => {
            return Err(GenError::EncodeFailure);
        },
    };
    if sh > u32::MAX as usize {
        return Err(GenError::EncodeFailure);
    }
    let area = match sw.checked_mul(sh) {
        Some(v) => v,
        None => {
            return Err(GenError::EncodeFailure);
        },
    };
    if area > usize::MAX / 4 {
        return Err(GenError::EncodeFailure);
    }
    assert(scene_dims_ok(g, tile_size as int));
    let scene = composite(&grid, &table, ts);
    let bytes = to_rgba_bytes(&scene);
    proof {
        assert forall|x: int, y: int|
            0 <= x < sw && 0 <= y < sh implies #[trigger] scene.pixel(x, y) == scene_pixel_of(
            m,
            g,
            ts as int,
            x,
            y,
        ) by {
            lemma_scene_pixel_of(table, m, g, ts as int, x, y);
        }
        lemma_pixels_rgba_congruence(
            sw as int,
            sh as int,
            (|x: int, y: int| scene.pixel(x, y)),
            (|x: int, y: int| scene_pixel_of(m, g, ts as int, x, y)),
        );
    }
    proof {
        assert((sw >= 1) <==> (gw >= 1)) by (nonlinear_arith)
            requires sw == gw * ts, ts >= 1, 0 <= gw;
        assert((sh >= 1) <==> (gh >= 1)) by (nonlinear_arith)
            requires sh == gh * ts, ts >= 1, 0 <= gh;
    }
    match encode_png_raw(sw as u32, sh as u32, bytes) {
        Ok(png) => Ok(png),
        Err(_) => Err(GenError::EncodeFailure),
    }
}

/// Whether every texture grid of the mapping encodes as a PNG.
pub open spec fn textures_encodable(m: Map<Seq<char>, Seq<Seq<Seq<char>>>>) -> bool {
    forall|n: Seq<char>| #[trigger] m.contains_key(n) ==> grid_encodable(m[n])
}

/// The JSON-object members the batch export produces for these texture
/// pairs: each name with the Base64 text of its grid's PNG bytes.
pub open spec fn b64_png_entries(ps: Seq<(Seq<char>, Seq<Seq<Seq<char>>>)>) -> Seq<
    (Seq<char>, Seq<char>),
> {
    Seq::new(
        ps.len(),
        |k: int|
            (
                ps[k].0,
                b64_of(
                    png_bytes_of(
                        grid_width(ps[k].1) as u32,
                        grid_height(ps[k].1) as u32,
                        grid_rgba(ps[k].1),
                    ),
                ),
            ),
    )
}

/// Renders every texture of a JSON table as PNG bytes and returns one JSON
/// object mapping each name to the Base64 text of its PNG.
///
/// Malformed input text gives `MalformedInput` and nothing else does; a
/// texture the encoder cannot take (a dimension zero or out of range) gives
/// `EncodeFailure`; every other parseable table succeeds, and the result is
/// the JSON object over the parsed pairs in some order that denotes the
/// parsed mapping, each value the Base64 PNG of its grid.
pub fn generate_all_texture_pngs(textures_json: &str) -> (r: Result<String, GenError>)
    ensures
        r == Err::<String, GenError>(GenError::MalformedInput) <==> json_textures_of(
            textures_json@,
        ) is None,
        (r is Ok) <==> (json_textures_of(textures_json@) matches Some(m)
            && textures_encodable(m)),
        r matches Ok(text) ==> json_textures_of(textures_json@) matches Some(m) && (exists|
            ps: Seq<(Seq<char>, Seq<Seq<Seq<char>>>)>,
        |
            {
                &&& (forall|i: int, j: int| 0 <= i < j < ps.len() ==> ps[i].0 != ps[j].0)
                &&& #[trigger] pairs_to_map(ps) == m
                &&& (forall|k: int| 0 <= k < ps.len() ==> texture_dims_ok(#[trigger] ps[k].1))
                &&& text@ == json_object_text(b64_png_entries(ps))
            }),
{
    let pairs = match parse_texture_table(textures_json) {
        Ok(v) => v,
        Err(_) => {
            return Err(GenError::MalformedInput);
        },
    };
    let ghost ps = pairs.deep_view();
    let ghost m = json_textures_of(textures_json@)->Some_0;
    proof {
        lemma_pairs_to_map(ps);
    }
    let mut entries: Vec<(String, String)> = Vec::new();
    let mut i: usize = 0;
    while i < pairs.len()
        invariant
            json_textures_of(textures_json@) is Some,
            ps == pairs.deep_view(),
            m == json_textures_of(textures_json@)->Some_0,
            m == pairs_to_map(ps),
            forall|k: int| 0 <= k < ps.len() ==> m.contains_key(#[trigger] ps[k].0),
            forall|k: int| 0 <= k < ps.len() ==> m[#[trigger] ps[k].0] == ps[k].1,
            forall|n: Seq<char>|
                #[trigger] m.contains_key(n) ==> exists|k: int| 0 <= k < ps.len() && ps[k].0 == n,
            i <= ps.len(),
            entries.deep_view().len() == i,
            forall|k: int|
                0 <= k < i ==> #[trigger] entries.deep_view()[k] == b64_png_entries(ps)[k],
            forall|k: int| 0 <= k < i ==> grid_encodable(#[trigger] ps[k].1),
        decreases pairs.len() - i,
    {
        let pr = &pairs[i];
        let tg = &pr.1;
        assert(tg.deep_view() == ps[i as int].1);
        let th = tg.len();
        let tw = if th > 0 {
            tg[0].len()
        } else {
            0
        };
        assert(tw == grid_width(ps[i as int].1) && th == grid_height(ps[i as int].1));
        proof {
            assert(m.contains_key(ps[i as int].0) && m[ps[i as int].0] == ps[i as int].1);
        }
        if tw > u32::MAX as usize || th > u32::MAX as usize {
            assert(!grid_encodable(ps[i as int].1));
            return Err(GenError::EncodeFailure);
        }
        let wh = match tw.checked_mul(th) {
            Some(wh) => wh,
            None => {
                assert(!grid_encodable(ps[i as int].1));
                return Err(GenError::EncodeFailure);
            },
        };
        if wh > usize::MAX / 4 {
            assert(!grid_encodable(ps[i as int].1));
            return Err(GenError::EncodeFailure);
        }
        assert(texture_dims_ok(ps[i as int].1));
        let buf = build_pixel_buffer(tg);
        let bytes = to_rgba_bytes(&buf);
        proof {
            lemma_pixels_rgba_congruence(
                tw as int,
                th as int,
                (|x: int, y: int| buf.pixel(x, y)),
                (|x: int, y: int| built_pixel(ps[i as int].1, x, y)),
            );
            assert(bytes@ == grid_rgba(ps[i as int].1));
        }
        let png = match encode_png_raw(tw as u32, th as u32, bytes) {
            Ok(p) => p,
            Err(_) => {
                assert(!grid_encodable(ps[i as int].1));
                return Err(GenError::EncodeFailure);
            },
        };
        let b64 = string_from_chars(crate::base64::base64_chars(&png));
        let name = pr.0.clone();
        let ghost pre = entries.deep_view();
        entries.push((name, b64));
        assert forall|k: int|
            0 <= k < i + 1 implies #[trigger] entries.deep_view()[k] == b64_png_entries(
            ps,
        )[k] by {
            if k < i {
                assert(entries.deep_view()[k] == pre[k]);
            } else {
                assert(entries.deep_view()[k] == b64_png_entries(ps)[k]);
            }
        }
        i = i + 1;
    }
    let text = string_from_chars(json_object(&entries));
    proof {
        assert(entries.deep_view() =~= b64_png_entries(ps));
        assert(pairs_to_map(ps) == m);
        assert(text@ == json_object_text(b64_png_entries(ps)));
        assert forall|n: Seq<char>| #[trigger] m.contains_key(n) implies grid_encodable(
            m[n],
        ) by {
            let k = choose|k: int| 0 <= k < ps.len() && ps[k].0 == n;
            assert(grid_encodable(ps[k].1));
            assert(m[n] == ps[k].1);
        }
        assert(textures_encodable(m));
    }
    Ok(text)
}

} // verus!
