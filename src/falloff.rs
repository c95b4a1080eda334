use vstd::prelude::*;

use crate::plane::{same_ratio, Ratio};

verus! {

/// `r` with a non-negative denominator, denoting the same number.
pub open spec fn with_positive_den(r: Ratio) -> Ratio {
    if r.1 < 0 {
        (-r.0, -r.1)
    } else {
        r
    }
}

/// A fraction with a positive denominator, clamped to `[0, 1]`.
pub open spec fn clamp_unit(r: Ratio) -> Ratio {
    if r.0 <= 0 {
        (0, 1)
    } else if r.0 >= r.1 {
        (1, 1)
    } else {
        r
    }
}

/// The cubic smoothstep `t * t * (3 - 2 * t)` of a fraction `t`.
pub open spec fn smoothstep(t: Ratio) -> Ratio {
    (t.0 * t.0 * (3 * t.1 - 2 * t.0), t.1 * t.1 * t.1)
}

/// The spot-cone falloff at `cos_angle` for cone-edge cosines `cos_outer` and
/// `cos_inner`, all three on one common scale:
/// `smoothstep(clamp((cos_angle - cos_outer) / (cos_inner - cos_outer), 0, 1))`.
/// When the two edges coincide the falloff is a step: 1 from the edge on, else 0.
/// When `cos_inner < cos_outer` the same formula holds, and the falloff is inverted.
pub open spec fn cone_falloff(cos_angle: int, cos_outer: int, cos_inner: int) -> Ratio {
    if cos_inner == cos_outer {
        if cos_angle >= cos_inner {
            (1, 1)
        } else {
            (0, 1)
        }
    } else {
        smoothstep(clamp_unit(with_positive_den((cos_angle - cos_outer, cos_inner - cos_outer))))
    }
}

/// The falloff at `cos_angle` over the denominator `(cos_inner - cos_outer)^3`,
/// for `cos_outer < cos_inner`: `m * m * (3 * d - 2 * m)` where `d` is the edge
/// gap and `m` is `cos_angle - cos_outer` clamped to `[0, d]`.
pub open spec fn falloff_numerator(cos_angle: int, cos_outer: int, cos_inner: int) -> int {
    let d = cos_inner - cos_outer;
    let m = if cos_angle <= cos_outer {
        0
    } else if cos_angle >= cos_inner {
        d
    } else {
        cos_angle - cos_outer
    };
    m * m * (3 * d - 2 * m)
}

/// A falloff value `num / den`.
#[derive(Clone, Copy, Debug, PartialEq, Eq, Structural)]
pub struct Falloff {
    pub num: u128,
    pub den: u128,
}

impl Falloff {
    /// The value as a fraction.
    pub open spec fn ratio(&self) -> Ratio {
        (self.num as int, self.den as int)
    }
}

/// The spot-cone falloff at `cos_angle`, exactly. The three cosines may be
/// given on any common fixed-point scale, since the falloff depends only on
/// their ratios.
pub fn spot_falloff(cos_angle: i32, cos_outer: i32, cos_inner: i32) -> (f: Falloff)
    ensures
        f.ratio() == cone_falloff(cos_angle as int, cos_outer as int, cos_inner as int),
        f.den > 0,
        f.num <= f.den,
{
    let gap: i64 = cos_inner as i64 - cos_outer as i64;
    if gap == 0 {
        return if cos_angle >= cos_inner {
            Falloff { num: 1, den: 1 }
        } else {
            Falloff { num: 0, den: 1 }
        };
    }
    let rise: i64 = cos_angle as i64 - cos_outer as i64;
    let (a, d) = if gap < 0 {
        (-rise, -gap)
    } else {
        (rise, gap)
    };
    proof {
        assert(smoothstep((0, 1)) == (0int, 1int)) by (nonlinear_arith);
        assert(smoothstep((1, 1)) == (1int, 1int)) by (nonlinear_arith);
    }
    if a <= 0 {
        Falloff { num: 0, den: 1 }
    } else if a >= d {
        Falloff { num: 1, den: 1 }
    } else {
        let n = a as u128;
        let d = d as u128;
        proof {
            assert(n * n * (3 * d - 2 * n) <= d * d * d <= 0x1_0000_0000 * 0x1_0000_0000
                * 0x1_0000_0000) by (nonlinear_arith)
                requires
                    0 < n < d <= 0x1_0000_0000,
            ;
            assert(n * n <= d * d <= 0x1_0000_0000 * 0x1_0000_0000) by (nonlinear_arith)
                requires
                    0 < n < d <= 0x1_0000_0000,
            ;
            assert(d * d * d > 0) by (nonlinear_arith)
                requires
                    d > 0,
            ;
            assert(n * n * (3 * d - 2 * n) <= n * n * (3 * d)) by (nonlinear_arith)
                requires
                    0 < n < d,
            ;
        }
        Falloff { num: n * n * (3 * d - 2 * n), den: d * d * d }
    }
}

/// Between cone edges with `cos_outer < cos_inner`, the falloff is the cubic
/// smoothstep `t * t * (3 - 2 * t)` of the clamped position `t`; it is 0 at or
/// outside the outer edge, 1 at or inside the inner edge, non-decreasing in the
/// cosine, and continuous: its rise over `[c1, c2]` is at most
/// `3 / 2 * (c2 - c1) / (cos_inner - cos_outer)`.
pub proof fn lemma_falloff_law(cos_outer: int, cos_inner: int, c1: int, c2: int)
    requires
        cos_outer < cos_inner,
    ensures
        ({
            let d = cos_inner - cos_outer;
            same_ratio(
                cone_falloff(c1, cos_outer, cos_inner),
                (falloff_numerator(c1, cos_outer, cos_inner), d * d * d),
            )
        }),
        c1 <= cos_outer ==> cone_falloff(c1, cos_outer, cos_inner) == (0int, 1int),
        c1 >= cos_inner ==> cone_falloff(c1, cos_outer, cos_inner) == (1int, 1int),
        c1 <= c2 ==> falloff_numerator(c1, cos_outer, cos_inner) <= falloff_numerator(
            c2,
            cos_outer,
            cos_inner,
        ),
        c1 <= c2 ==> ({
            let d = cos_inner - cos_outer;
            2 * (falloff_numerator(c2, cos_outer, cos_inner) - falloff_numerator(
                c1,
                cos_outer,
                cos_inner,
            )) <= 3 * d * d * (c2 - c1)
        }),
{
    let d = cos_inner - cos_outer;
    assert(smoothstep((0, 1)) == (0int, 1int));
    assert(smoothstep((1, 1)) == (1int, 1int));
    assert(d * d * (3 * d - 2 * d) == d * d * d) by (nonlinear_arith);
    assert(0 * 0 * (3 * d - 2 * 0) == 0 && 0 * (d * d * d) == 0) by (nonlinear_arith);
    let whole = d * d * d;
    if c1 <= cos_outer {
        assert(falloff_numerator(c1, cos_outer, cos_inner) == 0);
        assert(same_ratio((0, 1), (0, whole)));
    } else if c1 >= cos_inner {
        assert(falloff_numerator(c1, cos_outer, cos_inner) == whole);
        assert(same_ratio((1, 1), (whole, whole)));
    } else {
        let a = c1 - cos_outer;
        assert(cone_falloff(c1, cos_outer, cos_inner) == smoothstep((a, d)));
        assert(falloff_numerator(c1, cos_outer, cos_inner) == a * a * (3 * d - 2 * a));
        let p = smoothstep((a, d));
        assert(same_ratio(p, p));
    }
    if c1 <= c2 {
        let m1 = if c1 <= cos_outer {
            0
        } else if c1 >= cos_inner {
            d
        } else {
            c1 - cos_outer
        };
        let m2 = if c2 <= cos_outer {
            0
        } else if c2 >= cos_inner {
            d
        } else {
            c2 - cos_outer
        };
        assert(0 <= m1 <= m2 <= d);
        assert(m2 - m1 <= c2 - c1);
        lemma_smoothstep_rise(m1, m2, d);
        assert(3 * d * d * (m2 - m1) <= 3 * d * d * (c2 - c1)) by (nonlinear_arith)
            requires
                0 <= m2 - m1 <= c2 - c1,
        ;
    }
}

/// For `0 <= m1 <= m2 <= d`, `p(m) = m * m * (3 * d - 2 * m)` rises from `m1` to
/// `m2` by at least 0 and at most `3 / 2 * d * d * (m2 - m1)`.
proof fn lemma_smoothstep_rise(m1: int, m2: int, d: int)
    requires
        0 <= m1 <= m2 <= d,
    ensures
        m1 * m1 * (3 * d - 2 * m1) <= m2 * m2 * (3 * d - 2 * m2),
        2 * (m2 * m2 * (3 * d - 2 * m2) - m1 * m1 * (3 * d - 2 * m1)) <= 3 * d * d * (m2 - m1),
{
    let b = 3 * d * (m1 + m2) - 2 * (m1 * m1 + m1 * m2 + m2 * m2);
    assert(m2 * m2 * (3 * d - 2 * m2) - m1 * m1 * (3 * d - 2 * m1) == (m2 - m1) * b)
        by (nonlinear_arith)
        requires
            b == 3 * d * (m1 + m2) - 2 * (m1 * m1 + m1 * m2 + m2 * m2),
    ;
    assert(b == 3 * (d - m2) * (m1 + m2) + (m2 - m1) * (m2 + 2 * m1)) by (nonlinear_arith)
        requires
            b == 3 * d * (m1 + m2) - 2 * (m1 * m1 + m1 * m2 + m2 * m2),
    ;
    assert(3 * (d - m2) * (m1 + m2) >= 0) by (nonlinear_arith)
        requires
            d - m2 >= 0,
            m1 + m2 >= 0,
    ;
    assert((m2 - m1) * (m2 + 2 * m1) >= 0) by (nonlinear_arith)
        requires
            m2 - m1 >= 0,
            m2 + 2 * m1 >= 0,
    ;
    assert(3 * d * d - 2 * b == 3 * (d - m1 - m2) * (d - m1 - m2) + (m1 - m2) * (m1 - m2))
        by (nonlinear_arith)
        requires
            b == 3 * d * (m1 + m2) - 2 * (m1 * m1 + m1 * m2 + m2 * m2),
    ;
    assert(3 * (d - m1 - m2) * (d - m1 - m2) + (m1 - m2) * (m1 - m2) >= 0) by (nonlinear_arith);
    assert((m2 - m1) * b >= 0) by (nonlinear_arith)
        requires
            m2 - m1 >= 0,
            b >= 0,
    ;
    assert(2 * ((m2 - m1) * b) <= 3 * d * d * (m2 - m1)) by (nonlinear_arith)
        requires
            m2 - m1 >= 0,
            2 * b <= 3 * d * d,
    ;
}

/// A cone whose edges coincide (an outer angle of zero) lights no point
/// strictly outside its edge.
pub proof fn lemma_degenerate_cone_unlit(cos_edge: int, cos_angle: int)
    requires
        cos_angle < cos_edge,
    ensures
        cone_falloff(cos_angle, cos_edge, cos_edge) == (0int, 1int),
{
}

} // verus!
