//! The pixel surface: a contiguous buffer of packed RGB words with
//! bounds-checked writes. Out-of-range writes are silently dropped,
//! which is the clipping policy every rasterizer relies on.

use vstd::prelude::*;

verus! {

/// A fixed-size pixel surface. `buffer` holds one packed `0x00RRGGBB`
/// word per pixel, row-major: the pixel at column `x`, row `y` lives at
/// index `y * width + x`.
pub struct FrameBuffer {
    pub buffer: Vec<u32>,
    pub width: usize,
    pub height: usize,
}

impl FrameBuffer {
    /// Well-formedness: the buffer length matches the dimensions, and
    /// each dimension fits in 32 bits so coordinate arithmetic in wider
    /// signed integers cannot overflow.
    pub open spec fn wf(&self) -> bool {
        &&& self.buffer@.len() == self.width * self.height
        &&& self.width <= 0xFFFF_FFFF
        &&& self.height <= 0xFFFF_FFFF
    }

    /// The pixel word at column `px`, row `py`.
    pub open spec fn pix(&self, px: int, py: int) -> u32 {
        self.buffer@[py * self.width + px]
    }

    /// Whether `(px, py)` addresses a pixel of this surface.
    pub open spec fn in_bounds(&self, px: int, py: int) -> bool {
        0 <= px < self.width && 0 <= py < self.height
    }

    /// True when `self` and `other` have the same dimensions and
    /// buffer length: the shape every draw call preserves.
    pub open spec fn same_shape(&self, other: &FrameBuffer) -> bool {
        &&& self.width == other.width
        &&& self.height == other.height
        &&& self.buffer@.len() == other.buffer@.len()
    }

    /// Allocates a zero-initialized surface of the given dimensions.
    pub fn new(width: usize, height: usize) -> (fb: FrameBuffer)
        requires
            width <= 0xFFFF_FFFF,
            height <= 0xFFFF_FFFF,
            width * height <= usize::MAX,
        ensures
            fb.wf(),
            fb.width == width,
            fb.height == height,
            forall|i: int| 0 <= i < fb.buffer@.len() ==> fb.buffer@[i] == 0u32,
    {
        let n = width * height;
        let mut buffer: Vec<u32> = Vec::new();
        let mut i: usize = 0;
        while i < n
            invariant
                i <= n,
                buffer@.len() == i,
                forall|j: int| 0 <= j < i ==> buffer@[j] == 0u32,
            decreases n - i,
        {
            buffer.push(0);
            i = i + 1;
        }
        FrameBuffer { buffer, width, height }
    }

    /// Overwrites every pixel with `color`.
    pub fn clear(&mut self, color: u32)
        requires
            old(self).wf(),
        ensures
            final(self).wf(),
            final(self).same_shape(old(self)),
            forall|i: int|
                0 <= i < final(self).buffer@.len() ==> final(self).buffer@[i] == color,
    {
        let n = self.buffer.len();
        let mut i: usize = 0;
        while i < n
            invariant
                i <= n,
                self.buffer@.len() == n,
                self.width == old(self).width,
                self.height == old(self).height,
                forall|j: int| 0 <= j < i ==> self.buffer@[j] == color,
            decreases n - i,
        {
            self.buffer.set(i, color);
            i = i + 1;
        }
    }

    /// Writes one pixel; a no-op when `(x, y)` is out of range. This is
    /// the clipping contract that lets every rasterizer draw at the
    /// surface edges without further checks.
    pub fn set_pixel(&mut self, x: i64, y: i64, color: u32)
        requires
            old(self).wf(),
        ensures
            final(self).wf(),
            final(self).same_shape(old(self)),
            forall|px: int, py: int|
                final(self).in_bounds(px, py) ==> final(self).pix(px, py) == (if px == x && py == y {
                    color
                } else {
                    old(self).pix(px, py)
                }),
    {
        if 0 <= x && 0 <= y && x < self.width as i64 && y < self.height as i64 {
            proof {
                lemma_row_major_index_bounds(self.width as int, self.height as int, x as int, y as int);
            }
            let n = self.buffer.len();
            assert((y as int) * (self.width as int) + (x as int) < (n as int));
            let idx: usize = (y as usize) * self.width + (x as usize);
            self.buffer.set(idx, color);
            proof {
                assert forall|px: int, py: int|
                    self.in_bounds(px, py) implies self.pix(px, py) == (if px == x && py == y {
                        color
                    } else {
                        old(self).pix(px, py)
                    }) by {
                    lemma_row_major_index_bounds(self.width as int, self.height as int, px, py);
                    if !(px == x && py == y) {
                        lemma_row_major_index_injective(
                            self.width as int,
                            px,
                            py,
                            x as int,
                            y as int,
                        );
                    }
                }
            }
        }
    }

    /// Fills the axis-aligned rectangle of `w` by `h` pixels whose
    /// top-left corner is `(x, y)`, clipped to the surface.
    pub fn fill_rect(&mut self, x: i64, y: i64, w: i64, h: i64, color: u32)
        requires
            old(self).wf(),
            0 <= w,
            0 <= h,
            x + w <= i64::MAX,
            y + h <= i64::MAX,
        ensures
            final(self).wf(),
            final(self).same_shape(old(self)),
            forall|px: int, py: int|
                final(self).in_bounds(px, py) ==> final(self).pix(px, py) == (if x <= px < x + w
                    && y <= py < y + h {
                    color
                } else {
                    old(self).pix(px, py)
                }),
    {
        let mut dy: i64 = 0;
        while dy < h
            invariant
                old(self).wf(),
                self.wf(),
                self.same_shape(old(self)),
                0 <= dy <= h,
                0 <= w,
                x + w <= i64::MAX,
                y + h <= i64::MAX,
                forall|px: int, py: int|
                    self.in_bounds(px, py) ==> self.pix(px, py) == (if x <= px < x + w && y <= py
                        < y + dy {
                        color
                    } else {
                        old(self).pix(px, py)
                    }),
            decreases h - dy,
        {
            let mut dx: i64 = 0;
            while dx < w
                invariant
                    old(self).wf(),
                    self.wf(),
                    self.same_shape(old(self)),
                    0 <= dy < h,
                    0 <= dx <= w,
                    x + w <= i64::MAX,
                    y + h <= i64::MAX,
                    forall|px: int, py: int|
                        self.in_bounds(px, py) ==> self.pix(px, py) == (if (x <= px < x + w && y
                            <= py < y + dy) || (x <= px < x + dx && py == y + dy) {
                            color
                        } else {
                            old(self).pix(px, py)
                        }),
                decreases w - dx,
            {
                self.set_pixel(x + dx, y + dy, color);
                dx = dx + 1;
            }
            dy = dy + 1;
        }
    }
}

/// A row-major index computed from in-range coordinates addresses a
/// valid buffer element.
pub proof fn lemma_row_major_index_bounds(w: int, h: int, px: int, py: int)
    requires
        0 <= px < w,
        0 <= py < h,
    ensures
        0 <= py * w + px < w * h,
{
    assert(0 <= py * w + px < w * h) by (nonlinear_arith)
        requires
            0 <= px < w,
            0 <= py < h,
    ;
}

/// Distinct in-range coordinate pairs map to distinct row-major
/// indices.
proof fn lemma_row_major_index_injective(w: int, px1: int, py1: int, px2: int, py2: int)
    requires
        0 <= px1 < w,
        0 <= px2 < w,
        !(px1 == px2 && py1 == py2),
    ensures
        py1 * w + px1 != py2 * w + px2,
{
    assert(py1 * w + px1 != py2 * w + px2) by (nonlinear_arith)
        requires
            0 <= px1 < w,
            0 <= px2 < w,
            !(px1 == px2 && py1 == py2),
    ;
}

} // verus!
