//! The output raster: a row-major RGBA pixel buffer, allocated once at
//! its final size and mutated in place by the paint pass.

use vstd::prelude::*;
use vstd::pervasive::VecAdditionalExecFns;

use crate::color::Color;

verus! {

/// The color an untouched canvas cell holds: fully transparent black.
pub open spec fn transparent() -> Color {
    Color { r: 0, g: 0, b: 0, a: 0 }
}

/// A raster canvas: `width * height` pixels, row-major.
pub struct Canvas {
    pub width: usize,
    pub height: usize,
    pub pixels: Vec<Color>,
}

/// A cell's position is inside a `w` by `h` grid.
pub open spec fn in_grid(w: int, h: int, x: int, y: int) -> bool {
    0 <= x < w && 0 <= y < h
}

/// A cell of a `w`-wide grid lies inside the pixel buffer.
pub proof fn lemma_cell_index_bounds(w: int, h: int, x: int, y: int)
    requires
        in_grid(w, h, x, y),
    ensures
        0 <= y * w + x < w * h,
{
    assert(y * w + x < w * h) by (nonlinear_arith)
        requires
            0 <= x < w,
            0 <= y < h,
    ;
    assert(y * w >= 0) by (nonlinear_arith)
        requires
            y >= 0,
            w >= 0,
    ;
}

/// Distinct cells of a `w`-wide grid occupy distinct buffer indices.
pub proof fn lemma_cell_index_injective(w: int, x1: int, y1: int, x2: int, y2: int)
    requires
        0 <= x1 < w,
        0 <= x2 < w,
        y1 * w + x1 == y2 * w + x2,
    ensures
        x1 == x2 && y1 == y2,
{
    assert(y1 == y2 && x1 == x2) by (nonlinear_arith)
        requires
            0 <= x1 < w,
            0 <= x2 < w,
            y1 * w + x1 == y2 * w + x2,
    ;
}

impl Canvas {
    /// A canvas holds exactly one pixel per cell of its grid.
    pub open spec fn wf(self) -> bool {
        self.pixels@.len() == self.width * self.height
    }

    /// The pixel at column `x`, row `y`.
    pub open spec fn color_at(self, x: int, y: int) -> Color {
        self.pixels@[y * self.width + x]
    }

    /// Allocates a blank canvas: every cell transparent.
    pub fn new(width: usize, height: usize) -> (r: Canvas)
        requires
            width * height <= usize::MAX,
        ensures
            r.wf(),
            r.width == width,
            r.height == height,
            forall|x: int, y: int|
                in_grid(width as int, height as int, x, y) ==> r.color_at(x, y) == transparent(),
    {
        let total = width * height;
        let mut pixels: Vec<Color> = Vec::new();
        let mut i: usize = 0;
        while i < total
            invariant
                0 <= i <= total,
                pixels@.len() == i,
                forall|k: int| 0 <= k < i ==> pixels@[k] == transparent(),
            decreases total - i,
        {
            pixels.push(Color { r: 0, g: 0, b: 0, a: 0 });
            i = i + 1;
        }
        let r = Canvas { width, height, pixels };
        proof {
            assert forall|x: int, y: int|
                in_grid(width as int, height as int, x, y) implies r.color_at(x, y)
                == transparent() by {
                lemma_cell_index_bounds(width as int, height as int, x, y);
            }
        }
        r
    }

    /// Reads the pixel at column `x`, row `y`.
    pub fn pixel(&self, x: usize, y: usize) -> (c: Color)
        requires
            self.wf(),
            x < self.width,
            y < self.height,
        ensures
            c == self.color_at(x as int, y as int),
    {
        let len = self.pixels.len();
        proof {
            lemma_cell_index_bounds(
                self.width as int,
                self.height as int,
                x as int,
                y as int,
            );
            assert(y * self.width + x < len);
        }
        let i = y * self.width + x;
        self.pixels[i]
    }

    /// Paints the rectangle of cells `[x0, x0+w) x [y0, y0+h)` with one
    /// color and leaves every other cell untouched.
    pub fn fill_rect(&mut self, x0: usize, y0: usize, w: usize, h: usize, color: Color)
        requires
            old(self).wf(),
            x0 + w <= old(self).width,
            y0 + h <= old(self).height,
        ensures
            final(self).wf(),
            final(self).width == old(self).width,
            final(self).height == old(self).height,
            forall|x: int, y: int|
                in_grid(old(self).width as int, old(self).height as int, x, y)
                    ==> final(self).color_at(x, y) == (if x0 <= x < x0 + w && y0 <= y < y0 + h {
                    color
                } else {
                    old(self).color_at(x, y)
                }),
    {
        let ghost gw = self.width as int;
        let ghost gh = self.height as int;
        let mut y = y0;
        while y < y0 + h
            invariant
                y0 <= y <= y0 + h,
                x0 + w <= self.width,
                y0 + h <= self.height,
                self.wf(),
                self.width == old(self).width,
                self.height == old(self).height,
                gw == self.width as int,
                gh == self.height as int,
                forall|x: int, yy: int|
                    in_grid(gw, gh, x, yy) ==> self.color_at(x, yy) == (if x0 <= x < x0 + w && y0
                        <= yy < y {
                        color
                    } else {
                        old(self).color_at(x, yy)
                    }),
            decreases y0 + h - y,
        {
            let mut x = x0;
            while x < x0 + w
                invariant
                    x0 <= x <= x0 + w,
                    y0 <= y < y0 + h,
                    x0 + w <= self.width,
                    y0 + h <= self.height,
                    self.wf(),
                    self.width == old(self).width,
                    self.height == old(self).height,
                    gw == self.width as int,
                    gh == self.height as int,
                    forall|xx: int, yy: int|
                        in_grid(gw, gh, xx, yy) ==> self.color_at(xx, yy) == (if (x0 <= xx < x0 + w
                            && y0 <= yy < y) || (yy == y && x0 <= xx < x) {
                            color
                        } else {
                            old(self).color_at(xx, yy)
                        }),
                decreases x0 + w - x,
            {
                let len = self.pixels.len();
                proof {
                    lemma_cell_index_bounds(gw, gh, x as int, y as int);
                    assert(y * gw + x < len);
                }
                let idx = y * self.width + x;
                self.pixels.set(idx, color);
                proof {
                    assert forall|xx: int, yy: int|
                        in_grid(gw, gh, xx, yy) implies self.color_at(xx, yy) == (if (x0 <= xx < x0
                        + w && y0 <= yy < y) || (yy == y && x0 <= xx < x + 1) {
                        color
                    } else {
                        old(self).color_at(xx, yy)
                    }) by {
                        lemma_cell_index_bounds(gw, gh, xx, yy);
                        if yy * gw + xx == y * gw + x {
                            lemma_cell_index_injective(gw, xx, yy, x as int, y as int);
                        }
                    }
                }
                x = x + 1;
            }
            y = y + 1;
        }
    }
}

} // verus!
