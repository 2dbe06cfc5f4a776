//! Composing rasterised glyphs into the BGRA bitmap of a thumbnail's name
//! text. The glyphs themselves (coverage bitmaps and where each starts)
//! come from the font rasteriser.

use vstd::prelude::*;

verus! {

/// A rasterised glyph: a `width` x `height` coverage bitmap (row-major,
/// 0 = empty), the column where it starts, and how far its bottom edge
/// lies above the baseline (`ymin`, negative below it).
#[derive(Debug, Clone)]
pub struct Glyph {
    pub x_offset: i32,
    pub width: usize,
    pub height: usize,
    pub ymin: i32,
    pub bitmap: Vec<u8>,
}

/// Rendered text: `width` x `height` pixels, 4 bytes each in the order
/// blue, green, red, alpha, premultiplied by the glyph coverage.
#[derive(Debug)]
pub struct RenderedText {
    pub width: usize,
    pub height: usize,
    pub data: Vec<u8>,
}

/// A glyph's bitmap holds its area.
pub open spec fn glyph_ok(g: Glyph) -> bool {
    &&& g.bitmap@.len() == g.width * g.height
    &&& g.width <= i32::MAX
    &&& g.height <= i32::MAX
}

/// How far a glyph reaches above the baseline.
pub open spec fn ascent(g: Glyph) -> int {
    g.height + g.ymin
}

/// The highest reach above the baseline (at least 0).
pub open spec fn max_ascent(gs: Seq<Glyph>) -> int
    decreases gs.len(),
{
    if gs.len() == 0 {
        0
    } else {
        let m = max_ascent(gs.drop_last());
        if ascent(gs.last()) > m { ascent(gs.last()) } else { m }
    }
}

/// The lowest reach below the baseline (at least 0).
pub open spec fn max_descent(gs: Seq<Glyph>) -> int
    decreases gs.len(),
{
    if gs.len() == 0 {
        0
    } else {
        let m = max_descent(gs.drop_last());
        if -gs.last().ymin > m { -gs.last().ymin } else { m }
    }
}

/// The height of the text's line.
pub open spec fn line_height(gs: Seq<Glyph>) -> int {
    max_ascent(gs) + max_descent(gs)
}

/// The coverage glyph `g` gives pixel `(px, py)` of a line whose baseline
/// lies `asc` rows below the top; 0 outside the glyph.
pub open spec fn coverage_at(g: Glyph, asc: int, px: int, py: int) -> u8 {
    let gx = px - g.x_offset;
    let gy = py - (asc - ascent(g));
    if 0 <= gx < g.width && 0 <= gy < g.height {
        g.bitmap@[gy * g.width + gx]
    } else {
        0
    }
}

/// The coverage of pixel `(px, py)`: that of the last glyph covering it,
/// 0 when none does (a later glyph is drawn over an earlier one).
pub open spec fn covering(gs: Seq<Glyph>, asc: int, px: int, py: int) -> u8
    decreases gs.len(),
{
    if gs.len() == 0 {
        0
    } else if coverage_at(gs.last(), asc, px, py) > 0 {
        coverage_at(gs.last(), asc, px, py)
    } else {
        covering(gs.drop_last(), asc, px, py)
    }
}

/// Byte `c` (0 blue, 1 green, 2 red, 3 alpha) of an ARGB colour.
pub open spec fn color_byte(argb: u32, c: int) -> int {
    if c == 0 {
        (argb % 256) as int
    } else if c == 1 {
        ((argb / 256) % 256) as int
    } else if c == 2 {
        ((argb / 65536) % 256) as int
    } else {
        ((argb / 16777216) % 256) as int
    }
}

/// Byte `i` of the bitmap of a `width`-pixel-wide line: channel `i % 4`
/// of pixel `i / 4`, counted row by row, scaled by its coverage.
pub open spec fn bitmap_byte(gs: Seq<Glyph>, width: int, fg: u32, i: int) -> int {
    let q = i / 4;
    color_byte(fg, i % 4) * covering(gs, max_ascent(gs), q % width, q / width) / 255
}

fn glyph_coverage(g: &Glyph, asc: i64, px: i64, py: i64) -> (c: u8)
    requires
        glyph_ok(*g),
        -0x1_0000_0000 <= asc <= 0x1_0000_0000,
        0 <= px <= 0x1_0000_0000,
        0 <= py <= 0x2_0000_0000,
    ensures
        c == coverage_at(*g, asc as int, px as int, py as int),
{
    let gx: i64 = px - g.x_offset as i64;
    let gy: i64 = py - (asc - (g.height as i64 + g.ymin as i64));
    if 0 <= gx && gx < g.width as i64 && 0 <= gy && gy < g.height as i64 {
        let n = g.bitmap.len();
        let gxu = gx as usize;
        let gyu = gy as usize;
        assert(gyu * g.width + gxu < g.width * g.height) by (nonlinear_arith)
            requires gxu < g.width, gyu < g.height;
        assert(gyu * g.width <= gyu * g.width + gxu);
        assert(gyu * g.width + gxu < n);
        g.bitmap[gyu * g.width + gxu]
    } else {
        0
    }
}

fn covering_exec(gs: &Vec<Glyph>, asc: i64, px: i64, py: i64) -> (c: u8)
    requires
        forall|k: int| 0 <= k < gs@.len() ==> glyph_ok(#[trigger] gs@[k]),
        -0x1_0000_0000 <= asc <= 0x1_0000_0000,
        0 <= px <= 0x1_0000_0000,
        0 <= py <= 0x2_0000_0000,
    ensures
        c == covering(gs@, asc as int, px as int, py as int),
{
    let mut k: usize = gs.len();
    assert(gs@.take(k as int) =~= gs@);
    while k > 0
        invariant
            k <= gs@.len(),
            forall|j: int| 0 <= j < gs@.len() ==> glyph_ok(#[trigger] gs@[j]),
            -0x1_0000_0000 <= asc <= 0x1_0000_0000,
            0 <= px <= 0x1_0000_0000,
            0 <= py <= 0x2_0000_0000,
            covering(gs@, asc as int, px as int, py as int) == covering(gs@.take(k as int), asc as int, px as int, py as int),
        decreases k,
    {
        let c = glyph_coverage(&gs[k - 1], asc, px, py);
        let ghost t = gs@.take(k as int);
        assert(t.drop_last() =~= gs@.take(k - 1));
        assert(t.last() == gs@[k - 1]);
        if c > 0 {
            return c;
        }
        k = k - 1;
    }
    0
}

/// The highest ascent and lowest descent of the glyphs.
fn line_extent(gs: &Vec<Glyph>) -> (r: (i64, i64))
    requires
        forall|k: int| 0 <= k < gs@.len() ==> glyph_ok(#[trigger] gs@[k]),
    ensures
        r.0 == max_ascent(gs@),
        r.1 == max_descent(gs@),
        0 <= r.0 <= 0x1_0000_0000,
        0 <= r.1 <= 0x8000_0000,
{
    let mut asc: i64 = 0;
    let mut desc: i64 = 0;
    let mut i: usize = 0;
    while i < gs.len()
        invariant
            i <= gs@.len(),
            forall|k: int| 0 <= k < gs@.len() ==> glyph_ok(#[trigger] gs@[k]),
            asc == max_ascent(gs@.take(i as int)),
            desc == max_descent(gs@.take(i as int)),
            0 <= asc <= 0x1_0000_0000,
            0 <= desc <= 0x8000_0000,
        decreases gs@.len() - i,
    {
        let g = &gs[i];
        let ghost t = gs@.take(i + 1);
        assert(t.drop_last() =~= gs@.take(i as int));
        assert(t.last() == *g);
        let a: i64 = g.height as i64 + g.ymin as i64;
        if a > asc {
            asc = a;
        }
        let d: i64 = -(g.ymin as i64);
        if d > desc {
            desc = d;
        }
        i = i + 1;
    }
    assert(gs@.take(gs@.len() as int) =~= gs@);
    (asc, desc)
}

/// Compose the glyphs of a line `width` pixels wide in colour `fg` (ARGB):
/// the line is as high as the glyphs reach above and below the baseline,
/// and each pixel takes the colour scaled by the coverage of the last
/// glyph covering it. A line without width or height gives an empty
/// bitmap.
pub fn compose_text(glyphs: &Vec<Glyph>, width: usize, fg: u32) -> (r: RenderedText)
    requires
        forall|k: int| 0 <= k < glyphs@.len() ==> glyph_ok(#[trigger] glyphs@[k]),
        width * line_height(glyphs@) * 4 <= usize::MAX,
        width <= 0x1_0000_0000,
    ensures
        width == 0 || line_height(glyphs@) == 0 ==> r.width == 0 && r.height == 0 && r.data@.len() == 0,
        width > 0 && line_height(glyphs@) > 0 ==> {
            &&& r.width == width
            &&& r.height == line_height(glyphs@)
            &&& r.data@.len() == width * line_height(glyphs@) * 4
            &&& forall|i: int| 0 <= i < r.data@.len() ==> #[trigger] r.data@[i] == bitmap_byte(glyphs@, width as int, fg, i)
        },
{
    let (asc, desc) = line_extent(glyphs);
    let h = asc + desc;
    if width == 0 || h == 0 {
        return RenderedText { width: 0, height: 0, data: Vec::new() };
    }
    assert(h <= width * h && width * h <= width * h * 4) by (nonlinear_arith)
        requires width >= 1, h >= 1;
    let height = h as usize;
    let pixels = width * height;
    let b0: u32 = fg % 256;
    let b1: u32 = (fg / 256) % 256;
    let b2: u32 = (fg / 65536) % 256;
    let b3: u32 = (fg / 16777216) % 256;
    let mut data: Vec<u8> = Vec::new();
    let mut q: usize = 0;
    while q < pixels
        invariant
            q <= pixels,
            pixels == width * height,
            pixels * 4 <= usize::MAX,
            width >= 1,
            height >= 1,
            height == line_height(glyphs@),
            asc == max_ascent(glyphs@),
            0 <= asc <= 0x1_0000_0000,
            width <= 0x1_0000_0000,
            height <= 0x1_8000_0000,
            forall|k: int| 0 <= k < glyphs@.len() ==> glyph_ok(#[trigger] glyphs@[k]),
            b0 == color_byte(fg, 0),
            b1 == color_byte(fg, 1),
            b2 == color_byte(fg, 2),
            b3 == color_byte(fg, 3),
            data@.len() == 4 * q,
            forall|i: int| 0 <= i < data@.len() ==> #[trigger] data@[i] == bitmap_byte(glyphs@, width as int, fg, i),
        decreases pixels - q,
    {
        let px = q % width;
        let py = q / width;
        assert(py < height) by (nonlinear_arith)
            requires q < width * height, py == q / width, width >= 1;
        let cov = covering_exec(glyphs, asc, px as i64, py as i64) as u32;
        let ghost before = data@;
        assert(b0 * cov / 255 < 256) by (nonlinear_arith)
            requires b0 < 256, cov < 256;
        assert(b1 * cov / 255 < 256) by (nonlinear_arith)
            requires b1 < 256, cov < 256;
        assert(b2 * cov / 255 < 256) by (nonlinear_arith)
            requires b2 < 256, cov < 256;
        assert(b3 * cov / 255 < 256) by (nonlinear_arith)
            requires b3 < 256, cov < 256;
        data.push((b0 * cov / 255) as u8);
        data.push((b1 * cov / 255) as u8);
        data.push((b2 * cov / 255) as u8);
        data.push((b3 * cov / 255) as u8);
        assert forall|i: int| 0 <= i < data@.len() implies #[trigger] data@[i] == bitmap_byte(glyphs@, width as int, fg, i) by {
            if i < 4 * q {
                assert(data@[i] == before[i]);
            } else {
                assert(i / 4 == q);
            }
        };
        q = q + 1;
    }
    RenderedText { width, height, data }
}

} // verus!
