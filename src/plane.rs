use vstd::prelude::*;

use crate::canvas::Canvas;

verus! {

/// How the square plane `[-1, 1] x [-1, 1]` is fitted into the canvas.
#[derive(Clone, Copy, Debug, PartialEq, Eq, Structural)]
pub enum ObjectFit {
    /// The whole square is visible; the longer canvas side shows extra plane.
    Contain,
    /// The square fills the canvas; the plane beyond the shorter side is cropped.
    Cover,
}

/// A fraction as `(numerator, denominator)`.
pub type Ratio = (int, int);

/// Two fractions with nonzero denominators denote the same number.
pub open spec fn same_ratio(a: Ratio, b: Ratio) -> bool {
    a.0 * b.1 == b.0 * a.1
}

/// The product of two fractions.
pub open spec fn ratio_mul(a: Ratio, b: Ratio) -> Ratio {
    (a.0 * b.0, a.1 * b.1)
}

/// The quotient of two fractions.
pub open spec fn ratio_div(a: Ratio, b: Ratio) -> Ratio {
    (a.0 * b.1, a.1 * b.0)
}

/// `width / height`.
pub open spec fn aspect_ratio(canvas: Canvas) -> Ratio {
    (canvas.width as int, canvas.height as int)
}

/// Column `x` on the plane before fitting: `x / width * 2 - 1`.
pub open spec fn normalized_x(canvas: Canvas, x: int) -> Ratio {
    (2 * x - canvas.width, canvas.width as int)
}

/// Row `y` on the plane before fitting, with row 0 at the top: `y / height * -2 + 1`.
pub open spec fn normalized_y(canvas: Canvas, y: int) -> Ratio {
    (canvas.height - 2 * y, canvas.height as int)
}

/// The fit corrects the x axis exactly when `(fit == Contain) == (aspect_ratio >= 1)`;
/// otherwise it corrects the y axis.
pub open spec fn corrects_x(canvas: Canvas, fit: ObjectFit) -> bool {
    (fit == ObjectFit::Contain) == (canvas.width >= canvas.height)
}

/// The plane point of pixel `(x, y)`: the x coordinate is scaled by the aspect
/// ratio, or else the y coordinate is divided by it.
pub open spec fn fitted_point(canvas: Canvas, fit: ObjectFit, x: int, y: int) -> (Ratio, Ratio) {
    if corrects_x(canvas, fit) {
        (ratio_mul(normalized_x(canvas, x), aspect_ratio(canvas)), normalized_y(canvas, y))
    } else {
        (normalized_x(canvas, x), ratio_div(normalized_y(canvas, y), aspect_ratio(canvas)))
    }
}

/// The canvas side that both coordinates of a fitted point are measured against.
pub open spec fn fitted_side(canvas: Canvas, fit: ObjectFit) -> int {
    if corrects_x(canvas, fit) {
        canvas.height as int
    } else {
        canvas.width as int
    }
}

/// A point `(x_num / den, y_num / den)` of the lit plane `z = 0`, held exactly.
#[derive(Clone, Copy, Debug, PartialEq, Eq, Structural)]
pub struct PlanePoint {
    pub x_num: i64,
    pub y_num: i64,
    pub den: u32,
}

impl PlanePoint {
    /// The x coordinate as a fraction.
    pub open spec fn x_ratio(&self) -> Ratio {
        (self.x_num as int, self.den as int)
    }

    /// The y coordinate as a fraction.
    pub open spec fn y_ratio(&self) -> Ratio {
        (self.y_num as int, self.den as int)
    }

    /// `self` is the plane point of pixel `(x, y)` under `fit`, over the fitted side.
    pub open spec fn is_point_of(&self, canvas: Canvas, fit: ObjectFit, x: int, y: int) -> bool {
        &&& self.den == fitted_side(canvas, fit)
        &&& same_ratio(self.x_ratio(), fitted_point(canvas, fit, x, y).0)
        &&& same_ratio(self.y_ratio(), fitted_point(canvas, fit, x, y).1)
    }
}

/// Which axis the fit corrects: `true` for x, `false` for y.
pub fn fit_corrects_x(canvas: &Canvas, fit: ObjectFit) -> (r: bool)
    ensures
        r == corrects_x(*canvas, fit),
{
    let contain = match fit {
        ObjectFit::Contain => true,
        ObjectFit::Cover => false,
    };
    contain == (canvas.width >= canvas.height)
}

/// Maps pixel `(x, y)` to its exact point on the plane under `fit`.
pub fn plane_point(canvas: &Canvas, fit: ObjectFit, x: u32, y: u32) -> (p: PlanePoint)
    requires
        canvas.wf(),
        x < canvas.width,
        y < canvas.height,
    ensures
        p.is_point_of(*canvas, fit, x as int, y as int),
{
    let w = canvas.width;
    let h = canvas.height;
    let x_num = 2 * (x as i64) - w as i64;
    let y_num = h as i64 - 2 * (y as i64);
    let den = if fit_corrects_x(canvas, fit) {
        h
    } else {
        w
    };
    proof {
        let (wi, hi) = (w as int, h as int);
        assert(x_num * (wi * hi) == (x_num * wi) * hi) by (nonlinear_arith);
        assert(y_num * (hi * wi) == (y_num * hi) * wi) by (nonlinear_arith);
    }
    PlanePoint { x_num, y_num, den }
}

/// The plane point of every pixel, in row-major order: the entry at flat index
/// `y * width + x` is the point of pixel `(x, y)`, and there is one entry per pixel.
pub fn pixel_grid(canvas: &Canvas, fit: ObjectFit) -> (r: Vec<PlanePoint>)
    requires
        canvas.wf(),
        canvas.area() <= usize::MAX,
    ensures
        r@.len() == canvas.area(),
        forall|x: int, y: int|
            0 <= x < canvas.width && 0 <= y < canvas.height ==> #[trigger] r@[canvas.index_of(
                x,
                y,
            )].is_point_of(*canvas, fit, x, y),
{
    let mut r: Vec<PlanePoint> = Vec::new();
    let mut y: u32 = 0;
    while y < canvas.height
        invariant
            canvas.wf(),
            canvas.area() <= usize::MAX,
            y <= canvas.height,
            r@.len() == y * canvas.width,
            forall|xx: int, yy: int|
                0 <= xx < canvas.width && 0 <= yy < y ==> #[trigger] r@[canvas.index_of(
                    xx,
                    yy,
                )].is_point_of(*canvas, fit, xx, yy),
        decreases canvas.height - y,
    {
        let mut x: u32 = 0;
        while x < canvas.width
            invariant
                canvas.wf(),
                canvas.area() <= usize::MAX,
                y < canvas.height,
                x <= canvas.width,
                r@.len() == y * canvas.width + x,
                forall|xx: int, yy: int|
                    0 <= xx < canvas.width && 0 <= yy < y ==> #[trigger] r@[canvas.index_of(
                        xx,
                        yy,
                    )].is_point_of(*canvas, fit, xx, yy),
                forall|xx: int|
                    0 <= xx < x ==> #[trigger] r@[canvas.index_of(xx, y as int)].is_point_of(
                        *canvas,
                        fit,
                        xx,
                        y as int,
                    ),
            decreases canvas.width - x,
        {
            proof {
                lemma_row_major_bound(canvas.width as int, canvas.height as int, x as int, y as int);
            }
            let p = plane_point(canvas, fit, x, y);
            let ghost before = r@;
            r.push(p);
            proof {
                assert forall|xx: int, yy: int|
                    0 <= xx < canvas.width && 0 <= yy < y implies #[trigger] r@[canvas.index_of(
                        xx,
                        yy,
                    )] == before[canvas.index_of(xx, yy)] by {
                    lemma_row_major_bound(canvas.width as int, y as int, xx, yy);
                }
            }
            x = x + 1;
        }
        proof {
            assert(y * canvas.width + canvas.width == (y + 1) * canvas.width) by (nonlinear_arith);
        }
        y = y + 1;
    }
    assert(canvas.height * canvas.width == canvas.width * canvas.height) by (nonlinear_arith);
    r
}

/// Row-major slots of a `w x h` grid stay below `w * h`.
proof fn lemma_row_major_bound(w: int, h: int, x: int, y: int)
    requires
        0 <= x < w,
        0 <= y < h,
    ensures
        y * w + x < w * h,
        y * w + x < h * w,
{
    assert(y * w + x < w * h && w * h == h * w) by (nonlinear_arith)
        requires
            0 <= x < w,
            0 <= y < h,
    ;
}

/// On a square canvas the two fits agree: every pixel lands on the same plane point.
pub proof fn lemma_square_canvas_fits_agree(canvas: Canvas, x: int, y: int)
    requires
        canvas.wf(),
        canvas.width == canvas.height,
        0 <= x < canvas.width,
        0 <= y < canvas.height,
    ensures
        fitted_side(canvas, ObjectFit::Contain) == fitted_side(canvas, ObjectFit::Cover),
        same_ratio(
            fitted_point(canvas, ObjectFit::Contain, x, y).0,
            fitted_point(canvas, ObjectFit::Cover, x, y).0,
        ),
        same_ratio(
            fitted_point(canvas, ObjectFit::Contain, x, y).1,
            fitted_point(canvas, ObjectFit::Cover, x, y).1,
        ),
        forall|p: PlanePoint, q: PlanePoint|
            p.is_point_of(canvas, ObjectFit::Contain, x, y) && q.is_point_of(
                canvas,
                ObjectFit::Cover,
                x,
                y,
            ) ==> p == q,
{
    let n = canvas.width as int;
    let a = 2 * x - n;
    let b = n - 2 * y;
    assert(a * n * n == a * (n * n)) by (nonlinear_arith);
    assert(b * n * n == b * (n * n)) by (nonlinear_arith);
    assert forall|p: PlanePoint, q: PlanePoint|
        p.is_point_of(canvas, ObjectFit::Contain, x, y) && q.is_point_of(
            canvas,
            ObjectFit::Cover,
            x,
            y,
        ) implies p == q by {
        lemma_cancel_square(p.x_num as int, a, n);
        lemma_cancel(p.y_num as int, b, n);
        lemma_cancel(q.x_num as int, a, n);
        lemma_cancel_square(q.y_num as int, b, n);
    }
}

proof fn lemma_cancel(u: int, v: int, n: int)
    requires
        n > 0,
        u * n == v * n,
    ensures
        u == v,
{
    assert(u == v) by (nonlinear_arith)
        requires
            n > 0,
            u * n == v * n,
    ;
}

proof fn lemma_cancel_square(u: int, v: int, n: int)
    requires
        n > 0,
        u * (n * n) == (v * n) * n,
    ensures
        u == v,
{
    assert(u == v) by (nonlinear_arith)
        requires
            n > 0,
            u * (n * n) == (v * n) * n,
    ;
}

} // verus!
