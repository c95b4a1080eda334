use vstd::prelude::*;

verus! {

/// Why a scene's configuration was rejected before any rendering.
#[derive(Clone, Copy, Debug, PartialEq, Eq, Structural)]
pub enum ConfigError {
    /// The canvas has no columns.
    ZeroWidth,
    /// The canvas has no rows, so its aspect ratio is undefined.
    ZeroHeight,
}

/// The output raster: `width` columns by `height` rows, stored row by row.
#[derive(Clone, Copy, Debug, PartialEq, Eq, Structural)]
pub struct Canvas {
    pub width: u32,
    pub height: u32,
}

impl Canvas {
    /// A canvas has at least one row and one column.
    pub open spec fn wf(&self) -> bool {
        self.width > 0 && self.height > 0
    }

    /// Number of pixels of the canvas.
    pub open spec fn area(&self) -> nat {
        (self.width * self.height) as nat
    }

    /// The flat index of pixel `(x, y)` in row-major order.
    pub open spec fn index_of(&self, x: int, y: int) -> int {
        y * self.width + x
    }

    /// Builds a canvas, rejecting an empty one.
    pub fn new(width: u32, height: u32) -> (r: Result<Canvas, ConfigError>)
        ensures
            width == 0 ==> r == Err::<Canvas, ConfigError>(ConfigError::ZeroWidth),
            width > 0 && height == 0 ==> r == Err::<Canvas, ConfigError>(ConfigError::ZeroHeight),
            width > 0 && height > 0 ==> r == Ok::<Canvas, ConfigError>(Canvas { width, height }),
    {
        if width == 0 {
            Err(ConfigError::ZeroWidth)
        } else if height == 0 {
            Err(ConfigError::ZeroHeight)
        } else {
            Ok(Canvas { width, height })
        }
    }

    /// Number of pixels of the canvas, `width * height`.
    pub fn pixel_count(&self) -> (r: u64)
        ensures
            r == self.area(),
    {
        assert(self.width * self.height <= u32::MAX * u32::MAX) by (nonlinear_arith);
        self.width as u64 * self.height as u64
    }

    /// The flat row-major index of pixel `(x, y)`.
    pub fn pixel_index(&self, x: u32, y: u32) -> (r: u64)
        requires
            x < self.width,
            y < self.height,
        ensures
            r == self.index_of(x as int, y as int),
            r < self.area(),
    {
        let w = self.width as u64;
        let h = self.height as u64;
        assert((y as int) * (w as int) + (x as int) < (w as int) * (h as int)
            <= 0xffff_ffff * 0xffff_ffff) by (nonlinear_arith)
            requires
                x < w,
                y < h,
                w <= 0xffff_ffff,
                h <= 0xffff_ffff,
        ;
        y as u64 * w + x as u64
    }

    /// The pixel `(x, y)` stored at flat index `i`: column `i % width`, row `i / width`.
    pub fn pixel_at(&self, i: u64) -> (r: (u32, u32))
        requires
            self.wf(),
            i < self.area(),
        ensures
            r.0 < self.width,
            r.1 < self.height,
            self.index_of(r.0 as int, r.1 as int) == i,
    {
        let w = self.width as u64;
        let x = i % w;
        let y = i / w;
        proof {
            vstd::arithmetic::div_mod::lemma_fundamental_div_mod(i as int, w as int);
            assert(y < self.height) by (nonlinear_arith)
                requires
                    i == w * y + x,
                    x >= 0,
                    y >= 0,
                    w > 0,
                    i < w * self.height,
            ;
            assert(y * w == w * y) by (nonlinear_arith);
        }
        (x as u32, y as u32)
    }
}

/// Flat indices and pixel coordinates are in one-to-one correspondence:
/// every slot of a `width * height` buffer belongs to exactly one pixel.
pub proof fn lemma_index_bijective(canvas: Canvas, x1: int, y1: int, x2: int, y2: int)
    requires
        canvas.wf(),
        0 <= x1 < canvas.width,
        0 <= y1 < canvas.height,
        0 <= x2 < canvas.width,
        0 <= y2 < canvas.height,
    ensures
        0 <= canvas.index_of(x1, y1) < canvas.area(),
        canvas.index_of(x1, y1) == canvas.index_of(x2, y2) <==> (x1 == x2 && y1 == y2),
{
    let w = canvas.width as int;
    assert(0 <= y1 * w + x1 < w * canvas.height) by (nonlinear_arith)
        requires
            0 <= x1 < w,
            0 <= y1 < canvas.height,
    ;
    if y1 * w + x1 == y2 * w + x2 {
        vstd::arithmetic::div_mod::lemma_fundamental_div_mod_converse(y1 * w + x1, w, y1, x1);
        vstd::arithmetic::div_mod::lemma_fundamental_div_mod_converse(y2 * w + x2, w, y2, x2);
    }
}

} // verus!
