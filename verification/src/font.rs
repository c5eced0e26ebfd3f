//! The glyph rasterizer: a monospace bitmap font for digits, a colon,
//! a hyphen and a small uppercase alphabet, drawn at an integer pixel
//! scale. Every glyph is a grid of on/off cells; an "on" cell at grid
//! position `(r, c)` becomes a filled `scale` by `scale` pixel block at
//! `(x + c * scale, y + r * scale)`.
//!
//! The drawing contracts are pixel-exact: `bitmap_covers` names the set
//! of pixels a pattern reaches, and each draw function colors exactly
//! those pixels and no others.

use vstd::prelude::*;
use vstd::string::StrSliceExecFns;

use crate::framebuffer::FrameBuffer;
use crate::paint_or;

verus! {

/// Width in cells of every glyph of the font (digits, hyphen and
/// letters alike); the colon alone is 2 cells wide.
pub const DIGIT_WIDTH: u32 = 5;

/// Height in cells of every glyph of the font.
pub const DIGIT_HEIGHT: u32 = 7;

/// Whether cell `(r, c)` of a pattern is on. A pattern is a sequence
/// of row masks, most significant used bit leftmost: in a row of width
/// `w`, column `c` is bit `w - 1 - c`.
pub open spec fn cell_on(rows: Seq<u32>, w: int, r: int, c: int) -> bool {
    &&& 0 <= r < rows.len()
    &&& 0 <= c < w
    &&& (rows[r] >> ((w - 1 - c) as u32)) & 1 == 1
}

/// Whether the scaled block of cell `(r, c)` of a pattern anchored at
/// `(x, y)` covers the pixel `(px, py)`.
pub open spec fn block_covers(x: int, y: int, scale: int, r: int, c: int, px: int, py: int) -> bool {
    &&& x + c * scale <= px < x + (c + 1) * scale
    &&& y + r * scale <= py < y + (r + 1) * scale
}

/// Whether a pattern of width `w` drawn at `(x, y)` with the given
/// scale covers the pixel `(px, py)`: some on-cell's block does.
pub open spec fn bitmap_covers(
    rows: Seq<u32>,
    w: int,
    x: int,
    y: int,
    scale: int,
    px: int,
    py: int,
) -> bool {
    exists|r: int, c: int| cell_on(rows, w, r, c) && block_covers(x, y, scale, r, c, px, py)
}

/// The overlay a single pattern drawn in one color leaves at a pixel.
pub open spec fn glyph_paint(
    rows: Seq<u32>,
    w: int,
    x: int,
    y: int,
    scale: int,
    color: u32,
    px: int,
    py: int,
) -> Option<u32> {
    if bitmap_covers(rows, w, x, y, scale, px, py) {
        Option::Some(color)
    } else {
        Option::None
    }
}

/// Coverage restricted to the cells strictly before `(r0, c0)` in
/// row-major order: the part of a pattern an in-progress draw loop has
/// already emitted.
pub open spec fn bitmap_covers_before(
    rows: Seq<u32>,
    w: int,
    x: int,
    y: int,
    scale: int,
    r0: int,
    c0: int,
    px: int,
    py: int,
) -> bool {
    exists|r: int, c: int|
        (r < r0 || (r == r0 && c < c0)) && cell_on(rows, w, r, c) && block_covers(
            x,
            y,
            scale,
            r,
            c,
            px,
            py,
        )
}

/// Extending the emitted region by one cell extends the covered set by
/// exactly that cell's block (when the cell is on).
proof fn lemma_covers_cell_step(
    rows: Seq<u32>,
    w: int,
    x: int,
    y: int,
    scale: int,
    r0: int,
    c0: int,
    px: int,
    py: int,
)
    ensures
        bitmap_covers_before(rows, w, x, y, scale, r0, c0 + 1, px, py) <==> (bitmap_covers_before(
            rows,
            w,
            x,
            y,
            scale,
            r0,
            c0,
            px,
            py,
        ) || (cell_on(rows, w, r0, c0) && block_covers(x, y, scale, r0, c0, px, py))),
{
    if bitmap_covers_before(rows, w, x, y, scale, r0, c0 + 1, px, py) {
        let (r, c) = choose|r: int, c: int|
            (r < r0 || (r == r0 && c < c0 + 1)) && cell_on(rows, w, r, c) && block_covers(
                x,
                y,
                scale,
                r,
                c,
                px,
                py,
            );
        if r < r0 || (r == r0 && c < c0) {
            assert(bitmap_covers_before(rows, w, x, y, scale, r0, c0, px, py));
        } else {
            assert(r == r0 && c == c0);
        }
    }
    if bitmap_covers_before(rows, w, x, y, scale, r0, c0, px, py) {
        let (r, c) = choose|r: int, c: int|
            (r < r0 || (r == r0 && c < c0)) && cell_on(rows, w, r, c) && block_covers(
                x,
                y,
                scale,
                r,
                c,
                px,
                py,
            );
        assert((r < r0 || (r == r0 && c < c0 + 1)) && cell_on(rows, w, r, c) && block_covers(
            x,
            y,
            scale,
            r,
            c,
            px,
            py,
        ));
    }
    if cell_on(rows, w, r0, c0) && block_covers(x, y, scale, r0, c0, px, py) {
        assert((r0 < r0 || (r0 == r0 && c0 < c0 + 1)) && cell_on(rows, w, r0, c0) && block_covers(
            x,
            y,
            scale,
            r0,
            c0,
            px,
            py,
        ));
    }
}

/// Finishing a row of width `w` is the same as standing at the start
/// of the next row.
proof fn lemma_covers_row_step(
    rows: Seq<u32>,
    w: int,
    x: int,
    y: int,
    scale: int,
    r0: int,
    px: int,
    py: int,
)
    ensures
        bitmap_covers_before(rows, w, x, y, scale, r0, w, px, py) <==> bitmap_covers_before(
            rows,
            w,
            x,
            y,
            scale,
            r0 + 1,
            0,
            px,
            py,
        ),
{
    if bitmap_covers_before(rows, w, x, y, scale, r0, w, px, py) {
        let (r, c) = choose|r: int, c: int|
            (r < r0 || (r == r0 && c < w)) && cell_on(rows, w, r, c) && block_covers(
                x,
                y,
                scale,
                r,
                c,
                px,
                py,
            );
        assert((r < r0 + 1 || (r == r0 + 1 && c < 0)) && cell_on(rows, w, r, c) && block_covers(
            x,
            y,
            scale,
            r,
            c,
            px,
            py,
        ));
    }
    if bitmap_covers_before(rows, w, x, y, scale, r0 + 1, 0, px, py) {
        let (r, c) = choose|r: int, c: int|
            (r < r0 + 1 || (r == r0 + 1 && c < 0)) && cell_on(rows, w, r, c) && block_covers(
                x,
                y,
                scale,
                r,
                c,
                px,
                py,
            );
        assert((r < r0 || (r == r0 && c < w)) && cell_on(rows, w, r, c) && block_covers(
            x,
            y,
            scale,
            r,
            c,
            px,
            py,
        ));
    }
}

/// Having emitted every row, the emitted region is the whole pattern.
proof fn lemma_covers_full(
    rows: Seq<u32>,
    w: int,
    x: int,
    y: int,
    scale: int,
    px: int,
    py: int,
)
    ensures
        bitmap_covers_before(rows, w, x, y, scale, rows.len() as int, 0, px, py)
            <==> bitmap_covers(rows, w, x, y, scale, px, py),
{
    if bitmap_covers_before(rows, w, x, y, scale, rows.len() as int, 0, px, py) {
        let (r, c) = choose|r: int, c: int|
            (r < rows.len() || (r == rows.len() && c < 0)) && cell_on(rows, w, r, c)
                && block_covers(x, y, scale, r, c, px, py);
        assert(cell_on(rows, w, r, c) && block_covers(x, y, scale, r, c, px, py));
    }
    if bitmap_covers(rows, w, x, y, scale, px, py) {
        let (r, c) = choose|r: int, c: int|
            cell_on(rows, w, r, c) && block_covers(x, y, scale, r, c, px, py);
        assert((r < rows.len() || (r == rows.len() && c < 0)) && cell_on(rows, w, r, c)
            && block_covers(x, y, scale, r, c, px, py));
    }
}

/// A product of two nonnegative values is bounded by the product of
/// their bounds.
proof fn lemma_mul_le(a: int, amax: int, b: int, bmax: int)
    requires
        0 <= a <= amax,
        0 <= b <= bmax,
    ensures
        0 <= a * b <= amax * bmax,
{
    assert(0 <= a * b <= amax * bmax) by (nonlinear_arith)
        requires
            0 <= a <= amax,
            0 <= b <= bmax,
    ;
}

/// One distributivity step: `(a + 1) * b == a * b + b`.
proof fn lemma_mul_succ(a: int, b: int)
    ensures
        (a + 1) * b == a * b + b,
{
    assert((a + 1) * b == a * b + b) by (nonlinear_arith);
}

/// Draws a cell pattern at `(x, y)`: one filled `scale` by `scale`
/// block per on-cell, clipped to the surface. Colors exactly the
/// pixels of `bitmap_covers` and no others.
pub(crate) fn draw_bitmap(
    fb: &mut FrameBuffer,
    rows: &Vec<u32>,
    w: u32,
    x: i64,
    y: i64,
    scale: i64,
    color: u32,
)
    requires
        old(fb).wf(),
        1 <= w <= 32,
        rows@.len() <= 32,
        1 <= scale <= 0x8000_0000,
        x <= 0x7000_0000_0000_0000,
        y <= 0x7000_0000_0000_0000,
    ensures
        final(fb).wf(),
        final(fb).same_shape(old(fb)),
        forall|px: int, py: int|
            final(fb).in_bounds(px, py) ==> final(fb).pix(px, py) == paint_or(
                glyph_paint(rows@, w as int, x as int, y as int, scale as int, color, px, py),
                old(fb).pix(px, py),
            ),
{
    let nrows = rows.len();
    let mut r: usize = 0;
    while r < nrows
        invariant
            old(fb).wf(),
            fb.wf(),
            fb.same_shape(old(fb)),
            r <= nrows,
            nrows == rows@.len(),
            rows@.len() <= 32,
            1 <= w <= 32,
            1 <= scale <= 0x8000_0000,
            x <= 0x7000_0000_0000_0000,
            y <= 0x7000_0000_0000_0000,
            forall|px: int, py: int|
                fb.in_bounds(px, py) ==> fb.pix(px, py) == (if bitmap_covers_before(
                    rows@,
                    w as int,
                    x as int,
                    y as int,
                    scale as int,
                    r as int,
                    0,
                    px,
                    py,
                ) {
                    color
                } else {
                    old(fb).pix(px, py)
                }),
        decreases nrows - r,
    {
        let bits = rows[r];
        let mut c: u32 = 0;
        while c < w
            invariant
                old(fb).wf(),
                fb.wf(),
                fb.same_shape(old(fb)),
                r < nrows,
                nrows == rows@.len(),
                rows@.len() <= 32,
                c <= w,
                1 <= w <= 32,
                1 <= scale <= 0x8000_0000,
                x <= 0x7000_0000_0000_0000,
                y <= 0x7000_0000_0000_0000,
                bits == rows@[r as int],
                forall|px: int, py: int|
                    fb.in_bounds(px, py) ==> fb.pix(px, py) == (if bitmap_covers_before(
                        rows@,
                        w as int,
                        x as int,
                        y as int,
                        scale as int,
                        r as int,
                        c as int,
                        px,
                        py,
                    ) {
                        color
                    } else {
                        old(fb).pix(px, py)
                    }),
            decreases w - c,
        {
            if ((bits >> (w - 1 - c)) & 1) == 1 {
                proof {
                    lemma_mul_le(c as int, 31, scale as int, 0x8000_0000);
                    lemma_mul_le(r as int, 31, scale as int, 0x8000_0000);
                }
                let bx = x + (c as i64) * scale;
                let by = y + (r as i64) * scale;
                fb.fill_rect(bx, by, scale, scale, color);
                proof {
                    lemma_mul_succ(c as int, scale as int);
                    lemma_mul_succ(r as int, scale as int);
                    assert(cell_on(rows@, w as int, r as int, c as int));
                    assert forall|px: int, py: int|
                        fb.in_bounds(px, py) implies fb.pix(px, py) == (if bitmap_covers_before(
                        rows@,
                        w as int,
                        x as int,
                        y as int,
                        scale as int,
                        r as int,
                        c as int + 1,
                        px,
                        py,
                    ) {
                        color
                    } else {
                        old(fb).pix(px, py)
                    }) by {
                        lemma_covers_cell_step(
                            rows@,
                            w as int,
                            x as int,
                            y as int,
                            scale as int,
                            r as int,
                            c as int,
                            px,
                            py,
                        );
                        assert(block_covers(
                            x as int,
                            y as int,
                            scale as int,
                            r as int,
                            c as int,
                            px,
                            py,
                        ) <==> (bx <= px < bx + scale && by <= py < by + scale));
                    }
                }
            } else {
                proof {
                    assert(!cell_on(rows@, w as int, r as int, c as int));
                    assert forall|px: int, py: int|
                        fb.in_bounds(px, py) implies fb.pix(px, py) == (if bitmap_covers_before(
                        rows@,
                        w as int,
                        x as int,
                        y as int,
                        scale as int,
                        r as int,
                        c as int + 1,
                        px,
                        py,
                    ) {
                        color
                    } else {
                        old(fb).pix(px, py)
                    }) by {
                        lemma_covers_cell_step(
                            rows@,
                            w as int,
                            x as int,
                            y as int,
                            scale as int,
                            r as int,
                            c as int,
                            px,
                            py,
                        );
                    }
                }
            }
            c = c + 1;
        }
        proof {
            assert forall|px: int, py: int|
                fb.in_bounds(px, py) implies fb.pix(px, py) == (if bitmap_covers_before(
                rows@,
                w as int,
                x as int,
                y as int,
                scale as int,
                r as int + 1,
                0,
                px,
                py,
            ) {
                color
            } else {
                old(fb).pix(px, py)
            }) by {
                lemma_covers_row_step(
                    rows@,
                    w as int,
                    x as int,
                    y as int,
                    scale as int,
                    r as int,
                    px,
                    py,
                );
            }
        }
        r = r + 1;
    }
    proof {
        assert forall|px: int, py: int|
            fb.in_bounds(px, py) implies fb.pix(px, py) == paint_or(
            glyph_paint(rows@, w as int, x as int, y as int, scale as int, color, px, py),
            old(fb).pix(px, py),
        ) by {
            lemma_covers_full(rows@, w as int, x as int, y as int, scale as int, px, py);
        }
    }
}

/// Builds a 7-row pattern from its row masks.
fn rows7(r0: u32, r1: u32, r2: u32, r3: u32, r4: u32, r5: u32, r6: u32) -> (v: Vec<u32>)
    ensures
        v@ == seq![r0, r1, r2, r3, r4, r5, r6],
{
    let mut v: Vec<u32> = Vec::new();
    v.push(r0);
    v.push(r1);
    v.push(r2);
    v.push(r3);
    v.push(r4);
    v.push(r5);
    v.push(r6);
    proof {
        assert(v@ =~= seq![r0, r1, r2, r3, r4, r5, r6]);
    }
    v
}

/// The 5 by 7 cell pattern of a decimal digit; values outside 0 to 9
/// map to the blank pattern, so drawing them is a defined no-op.
pub open spec fn digit_rows(d: int) -> Seq<u32> {
    if d == 0 {
        seq![0b01110u32, 0b10001u32, 0b10011u32, 0b10101u32, 0b11001u32, 0b10001u32, 0b01110u32]
    } else if d == 1 {
        seq![0b00100u32, 0b01100u32, 0b00100u32, 0b00100u32, 0b00100u32, 0b00100u32, 0b01110u32]
    } else if d == 2 {
        seq![0b01110u32, 0b10001u32, 0b00001u32, 0b00010u32, 0b00100u32, 0b01000u32, 0b11111u32]
    } else if d == 3 {
        seq![0b11111u32, 0b00010u32, 0b00100u32, 0b00010u32, 0b00001u32, 0b10001u32, 0b01110u32]
    } else if d == 4 {
        seq![0b00010u32, 0b00110u32, 0b01010u32, 0b10010u32, 0b11111u32, 0b00010u32, 0b00010u32]
    } else if d == 5 {
        seq![0b11111u32, 0b10000u32, 0b11110u32, 0b00001u32, 0b00001u32, 0b10001u32, 0b01110u32]
    } else if d == 6 {
        seq![0b00110u32, 0b01000u32, 0b10000u32, 0b11110u32, 0b10001u32, 0b10001u32, 0b01110u32]
    } else if d == 7 {
        seq![0b11111u32, 0b00001u32, 0b00010u32, 0b00100u32, 0b01000u32, 0b01000u32, 0b01000u32]
    } else if d == 8 {
        seq![0b01110u32, 0b10001u32, 0b10001u32, 0b01110u32, 0b10001u32, 0b10001u32, 0b01110u32]
    } else if d == 9 {
        seq![0b01110u32, 0b10001u32, 0b10001u32, 0b01111u32, 0b00001u32, 0b00010u32, 0b01100u32]
    } else {
        seq![0u32, 0u32, 0u32, 0u32, 0u32, 0u32, 0u32]
    }
}

/// The row masks of a digit's pattern.
fn digit_pattern(d: u8) -> (rows: Vec<u32>)
    ensures
        rows@ == digit_rows(d as int),
        rows@.len() == 7,
{
    match d {
        0 => rows7(0b01110, 0b10001, 0b10011, 0b10101, 0b11001, 0b10001, 0b01110),
        1 => rows7(0b00100, 0b01100, 0b00100, 0b00100, 0b00100, 0b00100, 0b01110),
        2 => rows7(0b01110, 0b10001, 0b00001, 0b00010, 0b00100, 0b01000, 0b11111),
        3 => rows7(0b11111, 0b00010, 0b00100, 0b00010, 0b00001, 0b10001, 0b01110),
        4 => rows7(0b00010, 0b00110, 0b01010, 0b10010, 0b11111, 0b00010, 0b00010),
        5 => rows7(0b11111, 0b10000, 0b11110, 0b00001, 0b00001, 0b10001, 0b01110),
        6 => rows7(0b00110, 0b01000, 0b10000, 0b11110, 0b10001, 0b10001, 0b01110),
        7 => rows7(0b11111, 0b00001, 0b00010, 0b00100, 0b01000, 0b01000, 0b01000),
        8 => rows7(0b01110, 0b10001, 0b10001, 0b01110, 0b10001, 0b10001, 0b01110),
        9 => rows7(0b01110, 0b10001, 0b10001, 0b01111, 0b00001, 0b00010, 0b01100),
        _ => rows7(0, 0, 0, 0, 0, 0, 0),
    }
}

/// The overlay left by one digit glyph.
pub open spec fn digit_paint(
    d: int,
    x: int,
    y: int,
    scale: int,
    color: u32,
    px: int,
    py: int,
) -> Option<u32> {
    glyph_paint(digit_rows(d), 5, x, y, scale, color, px, py)
}

/// Draws the digit `value` (0 to 9; other values draw nothing) with
/// its top-left cell at `(x, y)`, each cell a `scale` by `scale`
/// block. Colors exactly the digit's scaled cell pattern, clipped to
/// the surface, and changes no other pixel.
pub fn draw_digit(fb: &mut FrameBuffer, value: u8, x: i32, y: i32, scale: i32, color: u32)
    requires
        old(fb).wf(),
        1 <= scale,
    ensures
        final(fb).wf(),
        final(fb).same_shape(old(fb)),
        forall|px: int, py: int|
            final(fb).in_bounds(px, py) ==> final(fb).pix(px, py) == paint_or(
                digit_paint(value as int, x as int, y as int, scale as int, color, px, py),
                old(fb).pix(px, py),
            ),
{
    let rows = digit_pattern(value);
    draw_bitmap(fb, &rows, 5, x as i64, y as i64, scale as i64, color);
}

/// The 2 by 7 cell pattern of the colon: two 2 by 2 dots.
pub open spec fn colon_rows() -> Seq<u32> {
    seq![0b00u32, 0b11u32, 0b11u32, 0b00u32, 0b11u32, 0b11u32, 0b00u32]
}

/// The overlay left by the colon, empty when `blink` is off.
pub open spec fn colon_paint(
    blink: bool,
    x: int,
    y: int,
    scale: int,
    color: u32,
    px: int,
    py: int,
) -> Option<u32> {
    if blink {
        glyph_paint(colon_rows(), 2, x, y, scale, color, px, py)
    } else {
        Option::None
    }
}

/// Draws the colon (2 cells wide) at `(x, y)`. With `blink` off it
/// colors no pixel at all; with `blink` on it colors exactly the
/// colon's scaled dot pattern.
pub fn draw_colon(fb: &mut FrameBuffer, x: i32, y: i32, scale: i32, color: u32, blink: bool)
    requires
        old(fb).wf(),
        1 <= scale,
    ensures
        final(fb).wf(),
        final(fb).same_shape(old(fb)),
        forall|px: int, py: int|
            final(fb).in_bounds(px, py) ==> final(fb).pix(px, py) == paint_or(
                colon_paint(blink, x as int, y as int, scale as int, color, px, py),
                old(fb).pix(px, py),
            ),
{
    if blink {
        let rows = rows7(0b00, 0b11, 0b11, 0b00, 0b11, 0b11, 0b00);
        draw_bitmap(fb, &rows, 2, x as i64, y as i64, scale as i64, color);
    }
}

/// The 5 by 7 cell pattern of the hyphen: one full middle row.
pub open spec fn hyphen_rows() -> Seq<u32> {
    seq![0u32, 0u32, 0u32, 0b11111u32, 0u32, 0u32, 0u32]
}

/// The overlay left by the hyphen glyph.
pub open spec fn hyphen_paint(
    x: int,
    y: int,
    scale: int,
    color: u32,
    px: int,
    py: int,
) -> Option<u32> {
    glyph_paint(hyphen_rows(), 5, x, y, scale, color, px, py)
}

/// Draws the hyphen at `(x, y)`: exactly its scaled middle-bar
/// pattern, nothing else.
pub fn draw_hyphen(fb: &mut FrameBuffer, x: i32, y: i32, scale: i32, color: u32)
    requires
        old(fb).wf(),
        1 <= scale,
    ensures
        final(fb).wf(),
        final(fb).same_shape(old(fb)),
        forall|px: int, py: int|
            final(fb).in_bounds(px, py) ==> final(fb).pix(px, py) == paint_or(
                hyphen_paint(x as int, y as int, scale as int, color, px, py),
                old(fb).pix(px, py),
            ),
{
    let rows = rows7(0, 0, 0, 0b11111, 0, 0, 0);
    draw_bitmap(fb, &rows, 5, x as i64, y as i64, scale as i64, color);
}

/// The 5 by 7 cell pattern of a letter of the small uppercase
/// alphabet the labels use; any other character maps to the blank
/// pattern, so drawing it is a defined no-op.
pub open spec fn letter_rows(ch: char) -> Seq<u32> {
    if ch == 'M' {
        seq![0b10001u32, 0b11011u32, 0b10101u32, 0b10101u32, 0b10001u32, 0b10001u32, 0b10001u32]
    } else if ch == 'O' {
        seq![0b01110u32, 0b10001u32, 0b10001u32, 0b10001u32, 0b10001u32, 0b10001u32, 0b01110u32]
    } else if ch == 'N' {
        seq![0b10001u32, 0b11001u32, 0b10101u32, 0b10011u32, 0b10001u32, 0b10001u32, 0b10001u32]
    } else if ch == 'T' {
        seq![0b11111u32, 0b00100u32, 0b00100u32, 0b00100u32, 0b00100u32, 0b00100u32, 0b00100u32]
    } else if ch == 'U' {
        seq![0b10001u32, 0b10001u32, 0b10001u32, 0b10001u32, 0b10001u32, 0b10001u32, 0b01110u32]
    } else if ch == 'E' {
        seq![0b11111u32, 0b10000u32, 0b11110u32, 0b10000u32, 0b10000u32, 0b10000u32, 0b11111u32]
    } else if ch == 'W' {
        seq![0b10001u32, 0b10001u32, 0b10001u32, 0b10101u32, 0b10101u32, 0b11011u32, 0b10001u32]
    } else if ch == 'H' {
        seq![0b10001u32, 0b10001u32, 0b11111u32, 0b10001u32, 0b10001u32, 0b10001u32, 0b10001u32]
    } else if ch == 'F' {
        seq![0b11111u32, 0b10000u32, 0b11110u32, 0b10000u32, 0b10000u32, 0b10000u32, 0b10000u32]
    } else if ch == 'R' {
        seq![0b11110u32, 0b10001u32, 0b11110u32, 0b10100u32, 0b10010u32, 0b10001u32, 0b10001u32]
    } else if ch == 'I' {
        seq![0b01110u32, 0b00100u32, 0b00100u32, 0b00100u32, 0b00100u32, 0b00100u32, 0b01110u32]
    } else if ch == 'S' {
        seq![0b01110u32, 0b10001u32, 0b10000u32, 0b01110u32, 0b00001u32, 0b10001u32, 0b01110u32]
    } else if ch == 'A' {
        seq![0b01110u32, 0b10001u32, 0b10001u32, 0b11111u32, 0b10001u32, 0b10001u32, 0b10001u32]
    } else if ch == 'D' {
        seq![0b11110u32, 0b10001u32, 0b10001u32, 0b10001u32, 0b10001u32, 0b10001u32, 0b11110u32]
    } else {
        seq![0u32, 0u32, 0u32, 0u32, 0u32, 0u32, 0u32]
    }
}

/// The row masks of a letter's pattern.
fn letter_pattern(ch: char) -> (rows: Vec<u32>)
    ensures
        rows@ == letter_rows(ch),
        rows@.len() == 7,
{
    match ch {
        'M' => rows7(0b10001, 0b11011, 0b10101, 0b10101, 0b10001, 0b10001, 0b10001),
        'O' => rows7(0b01110, 0b10001, 0b10001, 0b10001, 0b10001, 0b10001, 0b01110),
        'N' => rows7(0b10001, 0b11001, 0b10101, 0b10011, 0b10001, 0b10001, 0b10001),
        'T' => rows7(0b11111, 0b00100, 0b00100, 0b00100, 0b00100, 0b00100, 0b00100),
        'U' => rows7(0b10001, 0b10001, 0b10001, 0b10001, 0b10001, 0b10001, 0b01110),
        'E' => rows7(0b11111, 0b10000, 0b11110, 0b10000, 0b10000, 0b10000, 0b11111),
        'W' => rows7(0b10001, 0b10001, 0b10001, 0b10101, 0b10101, 0b11011, 0b10001),
        'H' => rows7(0b10001, 0b10001, 0b11111, 0b10001, 0b10001, 0b10001, 0b10001),
        'F' => rows7(0b11111, 0b10000, 0b11110, 0b10000, 0b10000, 0b10000, 0b10000),
        'R' => rows7(0b11110, 0b10001, 0b11110, 0b10100, 0b10010, 0b10001, 0b10001),
        'I' => rows7(0b01110, 0b00100, 0b00100, 0b00100, 0b00100, 0b00100, 0b01110),
        'S' => rows7(0b01110, 0b10001, 0b10000, 0b01110, 0b00001, 0b10001, 0b01110),
        'A' => rows7(0b01110, 0b10001, 0b10001, 0b11111, 0b10001, 0b10001, 0b10001),
        'D' => rows7(0b11110, 0b10001, 0b10001, 0b10001, 0b10001, 0b10001, 0b11110),
        _ => rows7(0, 0, 0, 0, 0, 0, 0),
    }
}

/// Whether a left-to-right run of letter glyphs starting at `(x, y)`
/// covers `(px, py)`. Each glyph advances the pen by the glyph width
/// plus one cell of spacing: `6 * scale` pixels.
pub open spec fn text_covers(s: Seq<char>, x: int, y: int, scale: int, px: int, py: int) -> bool {
    exists|i: int|
        0 <= i < s.len() && bitmap_covers(letter_rows(s[i]), 5, x + i * (6 * scale), y, scale, px, py)
}

/// The overlay left by a run of letter glyphs drawn in one color.
pub open spec fn text_paint(
    s: Seq<char>,
    x: int,
    y: int,
    scale: int,
    color: u32,
    px: int,
    py: int,
) -> Option<u32> {
    if text_covers(s, x, y, scale, px, py) {
        Option::Some(color)
    } else {
        Option::None
    }
}

/// Coverage of the first `n` glyphs only: the part of a run an
/// in-progress draw loop has already emitted.
pub open spec fn text_covers_before(
    s: Seq<char>,
    x: int,
    y: int,
    scale: int,
    n: int,
    px: int,
    py: int,
) -> bool {
    exists|i: int|
        0 <= i < n && i < s.len() && bitmap_covers(
            letter_rows(s[i]),
            5,
            x + i * (6 * scale),
            y,
            scale,
            px,
            py,
        )
}

/// Emitting one more glyph extends the covered set by exactly that
/// glyph's coverage.
proof fn lemma_text_step(s: Seq<char>, x: int, y: int, scale: int, n: int, px: int, py: int)
    requires
        0 <= n,
    ensures
        text_covers_before(s, x, y, scale, n + 1, px, py) <==> (text_covers_before(
            s,
            x,
            y,
            scale,
            n,
            px,
            py,
        ) || (n < s.len() && bitmap_covers(
            letter_rows(s[n]),
            5,
            x + n * (6 * scale),
            y,
            scale,
            px,
            py,
        ))),
{
    if text_covers_before(s, x, y, scale, n + 1, px, py) {
        let i = choose|i: int|
            0 <= i < n + 1 && i < s.len() && bitmap_covers(
                letter_rows(s[i]),
                5,
                x + i * (6 * scale),
                y,
                scale,
                px,
                py,
            );
        if i < n {
            assert(text_covers_before(s, x, y, scale, n, px, py));
        } else {
            assert(i == n);
        }
    }
    if text_covers_before(s, x, y, scale, n, px, py) {
        let i = choose|i: int|
            0 <= i < n && i < s.len() && bitmap_covers(
                letter_rows(s[i]),
                5,
                x + i * (6 * scale),
                y,
                scale,
                px,
                py,
            );
        assert(0 <= i < n + 1 && i < s.len() && bitmap_covers(
            letter_rows(s[i]),
            5,
            x + i * (6 * scale),
            y,
            scale,
            px,
            py,
        ));
    }
    if n < s.len() && bitmap_covers(letter_rows(s[n]), 5, x + n * (6 * scale), y, scale, px, py) {
        assert(0 <= n < n + 1 && n < s.len() && bitmap_covers(
            letter_rows(s[n]),
            5,
            x + n * (6 * scale),
            y,
            scale,
            px,
            py,
        ));
    }
}

/// Multiplying both sides of `a <= b` by a nonnegative factor keeps
/// the order.
proof fn lemma_mul_mono(a: int, b: int, m: int)
    requires
        a <= b,
        0 <= m,
    ensures
        a * m <= b * m,
{
    assert(a * m <= b * m) by (nonlinear_arith)
        requires
            a <= b,
            0 <= m,
    ;
}

/// Draws `text` left to right starting at `(x, y)`, each character a
/// 5 by 7 letter glyph at the given scale, advancing `6 * scale`
/// pixels per character. Characters outside the supported alphabet
/// draw nothing but still advance the pen. Colors exactly the run's
/// scaled pattern and changes no other pixel.
pub fn draw_text(fb: &mut FrameBuffer, text: &str, x: i32, y: i32, scale: i32, color: u32)
    requires
        old(fb).wf(),
        1 <= scale,
        x + text@.len() * (6 * scale) <= 0x7000_0000_0000_0000,
    ensures
        final(fb).wf(),
        final(fb).same_shape(old(fb)),
        forall|px: int, py: int|
            final(fb).in_bounds(px, py) ==> final(fb).pix(px, py) == paint_or(
                text_paint(text@, x as int, y as int, scale as int, color, px, py),
                old(fb).pix(px, py),
            ),
{
    let n = text.unicode_len();
    let step: i64 = 6 * (scale as i64);
    let mut i: usize = 0;
    let mut cx: i64 = x as i64;
    while i < n
        invariant
            old(fb).wf(),
            fb.wf(),
            fb.same_shape(old(fb)),
            i <= n,
            n == text@.len(),
            1 <= scale <= 0x7FFF_FFFF,
            step == 6 * (scale as int),
            cx == x + i * (6 * (scale as int)),
            x + text@.len() * (6 * (scale as int)) <= 0x7000_0000_0000_0000,
            forall|px: int, py: int|
                fb.in_bounds(px, py) ==> fb.pix(px, py) == (if text_covers_before(
                    text@,
                    x as int,
                    y as int,
                    scale as int,
                    i as int,
                    px,
                    py,
                ) {
                    color
                } else {
                    old(fb).pix(px, py)
                }),
        decreases n - i,
    {
        proof {
            lemma_mul_mono(i as int, n as int, 6 * (scale as int));
            lemma_mul_le(i as int, i as int, 6 * (scale as int), 6 * (scale as int));
        }
        let ch = text.get_char(i);
        let rows = letter_pattern(ch);
        draw_bitmap(fb, &rows, 5, cx, y as i64, scale as i64, color);
        proof {
            lemma_mul_succ(i as int, 6 * (scale as int));
            assert forall|px: int, py: int|
                fb.in_bounds(px, py) implies fb.pix(px, py) == (if text_covers_before(
                text@,
                x as int,
                y as int,
                scale as int,
                i as int + 1,
                px,
                py,
            ) {
                color
            } else {
                old(fb).pix(px, py)
            }) by {
                lemma_text_step(text@, x as int, y as int, scale as int, i as int, px, py);
            }
        }
        cx = cx + step;
        i = i + 1;
    }
    proof {
        assert forall|px: int, py: int|
            fb.in_bounds(px, py) implies fb.pix(px, py) == paint_or(
            text_paint(text@, x as int, y as int, scale as int, color, px, py),
            old(fb).pix(px, py),
        ) by {
            if text_covers(text@, x as int, y as int, scale as int, px, py) {
                let i = choose|i: int|
                    0 <= i < text@.len() && bitmap_covers(
                        letter_rows(text@[i]),
                        5,
                        x + i * (6 * (scale as int)),
                        y as int,
                        scale as int,
                        px,
                        py,
                    );
                assert(text_covers_before(
                    text@,
                    x as int,
                    y as int,
                    scale as int,
                    n as int,
                    px,
                    py,
                ));
            }
            if text_covers_before(text@, x as int, y as int, scale as int, n as int, px, py) {
                assert(text_covers(text@, x as int, y as int, scale as int, px, py));
            }
        }
    }
}

} // verus!
