use vstd::prelude::*;
use vstd::arithmetic::div_mod::{lemma_fundamental_div_mod, lemma_fundamental_div_mod_converse};

verus! {

/// The coverage bitmap of one rasterized glyph: `height` rows of `width` bytes, 0 for an
/// uncovered pixel and 255 for a fully covered one. `(offset_x, offset_y)` is where its
/// top-left pixel lies relative to the pen position, and `advance` is how far text layout
/// moves the pen after this glyph, in pixels.
pub struct GlyphBitmap {
    pub ch: char,
    pub width: usize,
    pub height: usize,
    pub offset_x: i32,
    pub offset_y: i32,
    pub advance: u32,
    pub coverage: Vec<u8>,
}

impl GlyphBitmap {
    pub open spec fn wf(&self) -> bool {
        self.coverage@.len() == self.width * self.height
    }
}

/// One entry of the atlas's character table: the rectangle that the glyph's bitmap occupies
/// in the atlas (top-left corner `(x, y)`, which may lie partly outside it), the bitmap's
/// offset from the pen, and the glyph's advance width.
#[derive(Clone, Copy, Debug, PartialEq, Eq, Structural)]
pub struct GlyphPlacement {
    pub ch: char,
    pub x: i128,
    pub y: i128,
    pub width: usize,
    pub height: usize,
    pub offset_x: i32,
    pub offset_y: i32,
    pub advance: u32,
}

/// A single-channel texture that packs glyph bitmaps in rows, and the place of each glyph.
pub struct FontAtlas {
    pub texture_id: u32,
    pub atlas_data: Vec<u8>,
    pub atlas_width: usize,
    pub atlas_height: usize,
    pub placements: Vec<GlyphPlacement>,
}

/// The pen position `(x, y)` chosen for glyph `g` when the cursor stands at `(cx, cy)`: a
/// glyph whose pixels would cross the right edge of a row that already holds glyphs starts
/// the next row, `row_advance` lower.
pub open spec fn wrap(cx: int, cy: int, g: GlyphBitmap, atlas_width: int, row_advance: int) -> (int, int) {
    if cx > 0 && cx + g.offset_x + g.width > atlas_width {
        (0, cy + row_advance)
    } else {
        (cx, cy)
    }
}

/// The pen position of glyph `i`: glyphs go left to right, each `padding` pixels after the
/// previous one's right edge, from `(0, 0)`.
pub open spec fn origin(
    glyphs: Seq<GlyphBitmap>,
    i: int,
    atlas_width: int,
    row_advance: int,
    padding: int,
) -> (int, int)
    decreases i,
{
    if i <= 0 {
        wrap(0, 0, glyphs[0], atlas_width, row_advance)
    } else {
        let p = origin(glyphs, i - 1, atlas_width, row_advance, padding);
        wrap(
            p.0 + glyphs[i - 1].width + padding,
            p.1,
            glyphs[i],
            atlas_width,
            row_advance,
        )
    }
}

/// The local pixel of `g`, placed with its pen at `(px, py)`, that lands on atlas pixel
/// `(ax, ay)`, if any.
pub open spec fn local_x(g: GlyphBitmap, px: int, ax: int) -> int {
    ax - px - g.offset_x
}

pub open spec fn local_y(g: GlyphBitmap, py: int, ay: int) -> int {
    ay - py - g.offset_y
}

pub open spec fn covers(g: GlyphBitmap, px: int, py: int, ax: int, ay: int) -> bool {
    0 <= local_x(g, px, ax) < g.width && 0 <= local_y(g, py, ay) < g.height
}

pub open spec fn coverage_at(g: GlyphBitmap, px: int, py: int, ax: int, ay: int) -> u8 {
    g.coverage@[local_y(g, py, ay) * g.width + local_x(g, px, ax)]
}

/// The value of atlas pixel `(ax, ay)` after the first `n` glyphs are drawn: the coverage of
/// the last of them that covers it, else 0.
pub open spec fn atlas_pixel(
    glyphs: Seq<GlyphBitmap>,
    n: int,
    ax: int,
    ay: int,
    atlas_width: int,
    row_advance: int,
    padding: int,
) -> u8
    decreases n,
{
    if n <= 0 {
        0
    } else {
        let p = origin(glyphs, n - 1, atlas_width, row_advance, padding);
        if covers(glyphs[n - 1], p.0, p.1, ax, ay) {
            coverage_at(glyphs[n - 1], p.0, p.1, ax, ay)
        } else {
            atlas_pixel(glyphs, n - 1, ax, ay, atlas_width, row_advance, padding)
        }
    }
}

/// The whole atlas after the first `n` glyphs, row by row.
pub open spec fn atlas_after(
    glyphs: Seq<GlyphBitmap>,
    n: int,
    atlas_width: int,
    atlas_height: int,
    row_advance: int,
    padding: int,
) -> Seq<u8> {
    Seq::new(
        (atlas_width * atlas_height) as nat,
        |k: int| atlas_pixel(glyphs, n, k % atlas_width, k / atlas_width, atlas_width, row_advance, padding),
    )
}

/// `base` with the rows of `g` above local row `row`, and the pixels of row `row` left of
/// column `col`, drawn with its pen at `(px, py)`; pixels outside the atlas are dropped.
pub open spec fn partly_drawn(
    base: Seq<u8>,
    g: GlyphBitmap,
    px: int,
    py: int,
    atlas_width: int,
    row: int,
    col: int,
) -> Seq<u8> {
    Seq::new(
        base.len(),
        |k: int|
            {
                let ax = k % atlas_width;
                let ay = k / atlas_width;
                let lx = local_x(g, px, ax);
                let ly = local_y(g, py, ay);
                if covers(g, px, py, ax, ay) && (ly < row || (ly == row && lx < col)) {
                    coverage_at(g, px, py, ax, ay)
                } else {
                    base[k]
                }
            },
    )
}

/// `p` records glyph `i`: its character, the atlas rectangle its bitmap was drawn into (the
/// pen position plus the bitmap's offset, and the bitmap's size), its offset and its advance.
pub open spec fn placed_as(
    p: GlyphPlacement,
    glyphs: Seq<GlyphBitmap>,
    i: int,
    atlas_width: int,
    row_advance: int,
    padding: int,
) -> bool {
    let o = origin(glyphs, i, atlas_width, row_advance, padding);
    &&& p.ch == glyphs[i].ch
    &&& p.x == o.0 + glyphs[i].offset_x
    &&& p.y == o.1 + glyphs[i].offset_y
    &&& p.width == glyphs[i].width
    &&& p.height == glyphs[i].height
    &&& p.offset_x == glyphs[i].offset_x
    &&& p.offset_y == glyphs[i].offset_y
    &&& p.advance == glyphs[i].advance
}

/// Row `i`, column `j` of a grid with `b` columns and `a` rows lies inside it.
proof fn lemma_grid_index(a: int, b: int, i: int, j: int)
    requires
        0 <= i < a,
        0 <= j < b,
    ensures
        0 <= i * b + j < a * b,
        a * b == b * a,
{
    assert(a * b == b * a) by (nonlinear_arith);
    assert(0 <= i * b + j < a * b) by (nonlinear_arith)
        requires
            0 <= i < a,
            0 <= j < b,
    ;
}

/// Each index of a `w` by `h` grid is the pixel `(k % w, k / w)` inside it.
proof fn lemma_pixel_of_index(k: int, w: int, h: int)
    requires
        0 <= k < w * h,
        w > 0,
    ensures
        0 <= k % w < w,
        0 <= k / w < h,
        k == (k / w) * w + k % w,
{
    lemma_fundamental_div_mod(k, w);
    assert((k / w) * w == w * (k / w)) by (nonlinear_arith);
    assert(0 <= k / w < h) by (nonlinear_arith)
        requires
            0 <= k < w * h,
            w > 0,
            k == w * (k / w) + k % w,
            0 <= k % w < w,
    ;
}

/// The pixel `(x, y)` of a grid `w` wide has index `y * w + x`, and no other index.
proof fn lemma_index_of_pixel(k: int, x: int, y: int, w: int)
    requires
        w > 0,
        0 <= x < w,
        0 <= y,
        0 <= k,
    ensures
        (k % w == x && k / w == y) <==> k == y * w + x,
{
    lemma_fundamental_div_mod(k, w);
    assert(w * (k / w) == (k / w) * w) by (nonlinear_arith);
    if k == y * w + x {
        lemma_fundamental_div_mod_converse(k, w, y, x);
    }
}

/// Drawing the pixel at local row `row`, column `col` of `g` extends the drawn region by that
/// one pixel: its atlas index `t` changes when it lies inside the atlas, nothing otherwise.
proof fn lemma_draw_step(
    base: Seq<u8>,
    g: GlyphBitmap,
    px: int,
    py: int,
    atlas_width: int,
    atlas_height: int,
    row: int,
    col: int,
)
    requires
        g.wf(),
        atlas_width > 0,
        base.len() == atlas_width * atlas_height,
        0 <= row < g.height,
        0 <= col < g.width,
    ensures
        ({
            let tx = px + g.offset_x + col;
            let ty = py + g.offset_y + row;
            let next = partly_drawn(base, g, px, py, atlas_width, row, col + 1);
            let cur = partly_drawn(base, g, px, py, atlas_width, row, col);
            &&& (0 <= tx < atlas_width && 0 <= ty < atlas_height) ==> next == cur.update(
                ty * atlas_width + tx,
                g.coverage@[row * g.width + col],
            )
            &&& !(0 <= tx < atlas_width && 0 <= ty < atlas_height) ==> next == cur
        }),
{
    lemma_grid_index(g.height as int, g.width as int, row, col);
    let tx = px + g.offset_x + col;
    let ty = py + g.offset_y + row;
    let next = partly_drawn(base, g, px, py, atlas_width, row, col + 1);
    let cur = partly_drawn(base, g, px, py, atlas_width, row, col);
    let inside = 0 <= tx < atlas_width && 0 <= ty < atlas_height;
    let t = ty * atlas_width + tx;
    assert forall|k: int| 0 <= k < base.len() implies next[k] == (if inside && k == t {
        g.coverage@[row * g.width + col]
    } else {
        cur[k]
    }) by {
        lemma_pixel_of_index(k, atlas_width, atlas_height);
        let ax = k % atlas_width;
        let ay = k / atlas_width;
        if 0 <= tx < atlas_width && 0 <= ty {
            lemma_index_of_pixel(k, tx, ty, atlas_width);
        }
        if ax == tx && ay == ty {
            assert(local_x(g, px, ax) == col && local_y(g, py, ay) == row);
        }
    }
    if inside {
        lemma_grid_index(atlas_height, atlas_width, ty, tx);
        assert(next =~= cur.update(t, g.coverage@[row * g.width + col]));
    } else {
        assert(next =~= cur);
    }
}

/// Draws `g` with its pen at `(px, py)`, dropping each pixel that falls outside the atlas.
fn draw_glyph(
    data: &mut Vec<u8>,
    g: &GlyphBitmap,
    px: i128,
    py: i128,
    atlas_width: usize,
    atlas_height: usize,
)
    requires
        g.wf(),
        atlas_width > 0,
        atlas_width * atlas_height <= usize::MAX,
        old(data)@.len() == atlas_width * atlas_height,
        -0x10_0000_0000_0000_0000_0000_0000 <= px <= 0x10_0000_0000_0000_0000_0000_0000,
        -0x10_0000_0000_0000_0000_0000_0000 <= py <= 0x10_0000_0000_0000_0000_0000_0000,
    ensures
        final(data)@ == partly_drawn(
            old(data)@,
            *g,
            px as int,
            py as int,
            atlas_width as int,
            g.height as int,
            0,
        ),
{
    let ghost base = data@;
    let mut row: usize = 0;
    while row < g.height
        invariant
            g.wf(),
            atlas_width > 0,
            atlas_width * atlas_height <= usize::MAX,
            base.len() == atlas_width * atlas_height,
            0 <= row <= g.height,
            -0x10_0000_0000_0000_0000_0000_0000 <= px <= 0x10_0000_0000_0000_0000_0000_0000,
            -0x10_0000_0000_0000_0000_0000_0000 <= py <= 0x10_0000_0000_0000_0000_0000_0000,
            data@ == partly_drawn(base, *g, px as int, py as int, atlas_width as int, row as int, 0),
        decreases g.height - row,
    {
        let mut col: usize = 0;
        while col < g.width
            invariant
                g.wf(),
                atlas_width > 0,
                atlas_width * atlas_height <= usize::MAX,
                base.len() == atlas_width * atlas_height,
                0 <= row < g.height,
                0 <= col <= g.width,
                -0x10_0000_0000_0000_0000_0000_0000 <= px <= 0x10_0000_0000_0000_0000_0000_0000,
                -0x10_0000_0000_0000_0000_0000_0000 <= py <= 0x10_0000_0000_0000_0000_0000_0000,
                data@ == partly_drawn(
                    base,
                    *g,
                    px as int,
                    py as int,
                    atlas_width as int,
                    row as int,
                    col as int,
                ),
            decreases g.width - col,
        {
            proof {
                lemma_draw_step(base, *g, px as int, py as int, atlas_width as int, atlas_height as int, row as int, col as int);
                lemma_grid_index(g.height as int, g.width as int, row as int, col as int);
            }
            let tx: i128 = px + g.offset_x as i128 + col as i128;
            let ty: i128 = py + g.offset_y as i128 + row as i128;
            if 0 <= tx && tx < atlas_width as i128 && 0 <= ty && ty < atlas_height as i128 {
                proof {
                    lemma_grid_index(atlas_height as int, atlas_width as int, ty as int, tx as int);
                }
                let t: usize = (ty as usize) * atlas_width + (tx as usize);
                let coverage_len: usize = g.coverage.len();
                assert(row * g.width + col < coverage_len);
                let v: u8 = g.coverage[row * g.width + col];
                data.set(t, v);
            }
            col = col + 1;
        }
        assert(partly_drawn(base, *g, px as int, py as int, atlas_width as int, row as int, g.width as int)
            =~= partly_drawn(base, *g, px as int, py as int, atlas_width as int, row + 1, 0));
        row = row + 1;
    }
}

/// The characters an atlas holds: printable ASCII, codes 32 through 126, in order.
pub fn printable_ascii() -> (r: Vec<char>)
    ensures
        r@.len() == 95,
        forall|i: int| 0 <= i < 95 ==> #[trigger] r@[i] as int == 32 + i,
{
    let mut r: Vec<char> = Vec::new();
    let mut code: u8 = 32;
    while code < 127
        invariant
            32 <= code <= 127,
            r@.len() == code - 32,
            forall|i: int| 0 <= i < r@.len() ==> #[trigger] r@[i] as int == 32 + i,
        decreases 127 - code,
    {
        r.push(code as char);
        code = code + 1;
    }
    r
}

impl FontAtlas {
    /// Packs `glyphs` in order into an atlas of `atlas_width` by `atlas_height` bytes: left to
    /// right with `padding` pixels between glyphs, starting a new row `row_advance` lower
    /// when a glyph's pixels would cross the right edge of a row that already holds glyphs. Every
    /// pixel is checked against the atlas bounds on its own, and one outside is dropped.
    /// The texture is not created yet: `texture_id` is 0.
    pub fn new(
        glyphs: &Vec<GlyphBitmap>,
        atlas_width: usize,
        atlas_height: usize,
        row_advance: u32,
        padding: u32,
    ) -> (r: FontAtlas)
        requires
            forall|i: int| 0 <= i < glyphs@.len() ==> (#[trigger] glyphs@[i]).wf(),
            atlas_width * atlas_height <= usize::MAX,
        ensures
            r.texture_id == 0,
            r.atlas_width == atlas_width,
            r.atlas_height == atlas_height,
            r.atlas_data@ == atlas_after(
                glyphs@,
                glyphs@.len() as int,
                atlas_width as int,
                atlas_height as int,
                row_advance as int,
                padding as int,
            ),
            r.placements@.len() == glyphs@.len(),
            forall|i: int|
                0 <= i < glyphs@.len() ==> placed_as(
                    #[trigger] r.placements@[i],
                    glyphs@,
                    i,
                    atlas_width as int,
                    row_advance as int,
                    padding as int,
                ),
    {
        let ghost aw = atlas_width as int;
        let ghost ah = atlas_height as int;
        let ghost adv = row_advance as int;
        let ghost pad = padding as int;
        let total: usize = atlas_width * atlas_height;
        let mut atlas_data: Vec<u8> = Vec::new();
        while atlas_data.len() < total
            invariant
                atlas_data@.len() <= total,
                forall|k: int| 0 <= k < atlas_data@.len() ==> #[trigger] atlas_data@[k] == 0u8,
            decreases total - atlas_data@.len(),
        {
            atlas_data.push(0);
        }
        assert(atlas_data@ =~= atlas_after(glyphs@, 0, aw, ah, adv, pad));
        let mut placements: Vec<GlyphPlacement> = Vec::new();
        let mut cursor_x: i128 = 0;
        let mut cursor_y: i128 = 0;
        let mut i: usize = 0;
        while i < glyphs.len()
            invariant
                0 <= i <= glyphs@.len(),
                forall|j: int| 0 <= j < glyphs@.len() ==> (#[trigger] glyphs@[j]).wf(),
                atlas_width * atlas_height <= usize::MAX,
                total == atlas_width * atlas_height,
                aw == atlas_width && ah == atlas_height && adv == row_advance && pad == padding,
                atlas_data@ == atlas_after(glyphs@, i as int, aw, ah, adv, pad),
                i == 0 ==> cursor_x == 0 && cursor_y == 0,
                i > 0 ==> cursor_x == origin(glyphs@, i - 1, aw, adv, pad).0 + glyphs@[i - 1].width + pad,
                i > 0 ==> cursor_y == origin(glyphs@, i - 1, aw, adv, pad).1,
                0 <= cursor_x <= 0x3_0000_0000_0000_0000,
                0 <= cursor_y <= i * adv,
                placements@.len() == i,
                forall|j: int|
                    0 <= j < i ==> placed_as(#[trigger] placements@[j], glyphs@, j, aw, adv, pad),
            decreases glyphs@.len() - i,
        {
            let g = &glyphs[i];
            proof {
                assert(i * adv <= 0x1_0000_0000_0000_0000 * 0x1_0000_0000) by (nonlinear_arith)
                    requires
                        0 <= i <= usize::MAX,
                        0 <= adv <= u32::MAX,
                ;
            }
            let (pen_x, pen_y) = if cursor_x > 0 && cursor_x + g.offset_x as i128 + g.width as i128 > atlas_width as i128 {
                (0i128, cursor_y + row_advance as i128)
            } else {
                (cursor_x, cursor_y)
            };
            assert(origin(glyphs@, i as int, aw, adv, pad) == (pen_x as int, pen_y as int));
            assert(pen_y <= 0x1_0000_0000_0000_0000 * 0x1_0000_0000 + 0x1_0000_0000);
            if atlas_width > 0 {
                draw_glyph(&mut atlas_data, g, pen_x, pen_y, atlas_width, atlas_height);
            }
            assert(atlas_data@ =~= atlas_after(glyphs@, i + 1, aw, ah, adv, pad));
            placements.push(
                GlyphPlacement {
                    ch: g.ch,
                    x: pen_x + g.offset_x as i128,
                    y: pen_y + g.offset_y as i128,
                    width: g.width,
                    height: g.height,
                    offset_x: g.offset_x,
                    offset_y: g.offset_y,
                    advance: g.advance,
                },
            );
            proof {
                assert(pen_y <= (i + 1) * adv) by (nonlinear_arith)
                    requires
                        pen_y <= cursor_y + adv,
                        cursor_y <= i * adv,
                ;
            }
            cursor_x = pen_x + g.width as i128 + padding as i128;
            cursor_y = pen_y;
            i = i + 1;
        }
        FontAtlas { texture_id: 0, atlas_data, atlas_width, atlas_height, placements }
    }
}

} // verus!
