use std::cmp::Ordering;
use vstd::prelude::*;
use crate::fix_float::{floor_div, in_i64, FixFloat, FIX_UNIT};
use crate::fix_vec::{cross, FixVec};
use crate::grid::point::IntPoint;

verus! {

/// The integer point as a vector.
pub open spec fn vec_of(p: IntPoint) -> FixVec {
    FixVec { x: p.x as i64, y: p.y as i64 }
}

/// Twice the signed area of the triangle `p0, p1, p2`: the cross product of
/// `p1 - p0` and `p1 - p2`. Positive when the triangle turns clockwise.
pub open spec fn area_two_of(p0: FixVec, p1: FixVec, p2: FixVec) -> int {
    cross(p1.x - p0.x, p1.y - p0.y, p1.x - p2.x, p1.y - p2.y)
}

/// The cross product of `p - a` and `b - a`: its sign tells on which side of the edge
/// from `a` to `b` the point `p` lies.
pub open spec fn edge_cross(p: FixVec, a: FixVec, b: FixVec) -> int {
    cross(p.x - a.x, p.y - a.y, b.x - a.x, b.y - a.y)
}

/// The cross product of `(ax, ay)` and `(bx, by)` and its two products fit in 64 bits.
pub open spec fn cross_fits(ax: int, ay: int, bx: int, by: int) -> bool {
    in_i64(ax * by) && in_i64(ay * bx) && in_i64(cross(ax, ay, bx, by))
}

/// `a - b` fits in 64 bits.
pub open spec fn sub_fits(a: FixVec, b: FixVec) -> bool {
    in_i64(a.x - b.x) && in_i64(a.y - b.y)
}

/// Computing the doubled area of `p0, p1, p2` stays in 64 bits.
pub open spec fn area_fits(p0: FixVec, p1: FixVec, p2: FixVec) -> bool {
    sub_fits(p1, p0) && sub_fits(p1, p2) && cross_fits(
        p1.x - p0.x,
        p1.y - p0.y,
        p1.x - p2.x,
        p1.y - p2.y,
    )
}

/// Computing `edge_cross(p, a, b)` stays in 64 bits.
pub open spec fn edge_fits(p: FixVec, a: FixVec, b: FixVec) -> bool {
    sub_fits(p, a) && sub_fits(b, a) && cross_fits(p.x - a.x, p.y - a.y, b.x - a.x, b.y - a.y)
}

/// Computing the three edge tests of `p` against the triangle `p0, p1, p2` stays in 64 bits.
pub open spec fn contain_fits(p: FixVec, p0: FixVec, p1: FixVec, p2: FixVec) -> bool {
    edge_fits(p, p1, p0) && edge_fits(p, p2, p1) && edge_fits(p, p0, p2)
}

/// No two of the three edge tests have strictly opposite signs: the point is inside the
/// triangle or on its border.
pub open spec fn signs_agree(q0: int, q1: int, q2: int) -> bool {
    !((q0 < 0 || q1 < 0 || q2 < 0) && (q0 > 0 || q1 > 0 || q2 > 0))
}

/// `p` lies inside the triangle `p0, p1, p2` or on its border.
pub open spec fn contains_of(p: FixVec, p0: FixVec, p1: FixVec, p2: FixVec) -> bool {
    signs_agree(edge_cross(p, p1, p0), edge_cross(p, p2, p1), edge_cross(p, p0, p2))
}

/// `p` lies strictly inside the triangle `p0, p1, p2`.
pub open spec fn strictly_contains_of(p: FixVec, p0: FixVec, p1: FixVec, p2: FixVec) -> bool {
    contains_of(p, p0, p1, p2) && edge_cross(p, p1, p0) != 0 && edge_cross(p, p2, p1) != 0
        && edge_cross(p, p0, p2) != 0
}

/// Some edge test is not positive and some edge test is not negative.
pub open spec fn not_contains_of(p: FixVec, p0: FixVec, p1: FixVec, p2: FixVec) -> bool {
    let q0 = edge_cross(p, p1, p0);
    let q1 = edge_cross(p, p2, p1);
    let q2 = edge_cross(p, p0, p2);
    (q0 <= 0 || q1 <= 0 || q2 <= 0) && (q0 >= 0 || q1 >= 0 || q2 >= 0)
}

/// The sign of `v`: -1, 0 or 1.
pub open spec fn sign(v: int) -> int {
    if v > 0 {
        1
    } else if v < 0 {
        -1
    } else {
        0
    }
}

/// Orientation and containment tests on three points.
pub struct Triangle;

impl Triangle {
    pub fn area_two(p0: FixVec, p1: FixVec, p2: FixVec) -> (r: i64)
        requires
            area_fits(p0, p1, p2),
        ensures
            r == area_two_of(p0, p1, p2),
    {
        (p1 - p0).cross_product(p1 - p2)
    }

    /// The signed area, rounded down.
    pub fn area(p0: FixVec, p1: FixVec, p2: FixVec) -> (r: i64)
        requires
            area_fits(p0, p1, p2),
        ensures
            r == floor_div(area_two_of(p0, p1, p2), 2),
    {
        let a = Self::area_two(p0, p1, p2);
        proof {
            lemma_half(a);
        }
        a >> 1
    }

    /// The signed area of a triangle of fixed-point vertices, as a fixed-point number
    /// rounded down.
    pub fn fix_area(p0: FixVec, p1: FixVec, p2: FixVec) -> (r: FixFloat)
        requires
            sub_fits(p1, p0),
            sub_fits(p1, p2),
            in_i64((p1.x - p0.x) * (p1.y - p2.y)),
            in_i64((p1.y - p0.y) * (p1.x - p2.x)),
            in_i64(
                floor_div((p1.x - p0.x) * (p1.y - p2.y), FIX_UNIT as int) - floor_div(
                    (p1.y - p0.y) * (p1.x - p2.x),
                    FIX_UNIT as int,
                ),
            ),
        ensures
            r == floor_div(
                floor_div((p1.x - p0.x) * (p1.y - p2.y), FIX_UNIT as int) - floor_div(
                    (p1.y - p0.y) * (p1.x - p2.x),
                    FIX_UNIT as int,
                ),
                2,
            ),
    {
        let a = (p1 - p0).fix_cross_product(p1 - p2);
        proof {
            lemma_half(a);
        }
        a >> 1
    }

    pub fn is_clockwise(p0: FixVec, p1: FixVec, p2: FixVec) -> (r: bool)
        requires
            area_fits(p0, p1, p2),
        ensures
            r == (area_two_of(p0, p1, p2) > 0),
    {
        Self::area_two(p0, p1, p2) > 0
    }

    pub fn is_cw_or_line(p0: FixVec, p1: FixVec, p2: FixVec) -> (r: bool)
        requires
            area_fits(p0, p1, p2),
        ensures
            r == (area_two_of(p0, p1, p2) >= 0),
    {
        Self::area_two(p0, p1, p2) >= 0
    }

    pub fn is_not_line(p0: FixVec, p1: FixVec, p2: FixVec) -> (r: bool)
        requires
            area_fits(p0, p1, p2),
        ensures
            r == (area_two_of(p0, p1, p2) != 0),
    {
        Self::area_two(p0, p1, p2) != 0
    }

    pub fn is_line(p0: FixVec, p1: FixVec, p2: FixVec) -> (r: bool)
        requires
            area_fits(p0, p1, p2),
        ensures
            r == (area_two_of(p0, p1, p2) == 0),
    {
        Self::area_two(p0, p1, p2) == 0
    }

    /// 1 for a clockwise triangle, -1 for a counter-clockwise one, 0 for collinear points.
    pub fn clock_direction(p0: FixVec, p1: FixVec, p2: FixVec) -> (r: i64)
        requires
            area_fits(p0, p1, p2),
        ensures
            r == sign(area_two_of(p0, p1, p2)),
    {
        signum(Self::area_two(p0, p1, p2))
    }

    /// `p` lies inside the triangle or on its border.
    pub fn is_contain(p: FixVec, p0: FixVec, p1: FixVec, p2: FixVec) -> (r: bool)
        requires
            contain_fits(p, p0, p1, p2),
        ensures
            r == contains_of(p, p0, p1, p2),
    {
        let q0 = (p - p1).cross_product(p0 - p1);
        let q1 = (p - p2).cross_product(p1 - p2);
        let q2 = (p - p0).cross_product(p2 - p0);

        let has_neg = q0 < 0 || q1 < 0 || q2 < 0;
        let has_pos = q0 > 0 || q1 > 0 || q2 > 0;

        !(has_neg && has_pos)
    }

    /// Some edge test is not positive and some is not negative.
    pub fn is_not_contain(p: FixVec, p0: FixVec, p1: FixVec, p2: FixVec) -> (r: bool)
        requires
            contain_fits(p, p0, p1, p2),
        ensures
            r == not_contains_of(p, p0, p1, p2),
    {
        let q0 = (p - p1).cross_product(p0 - p1);
        let q1 = (p - p2).cross_product(p1 - p2);
        let q2 = (p - p0).cross_product(p2 - p0);

        let has_neg = q0 <= 0 || q1 <= 0 || q2 <= 0;
        let has_pos = q0 >= 0 || q1 >= 0 || q2 >= 0;

        has_neg && has_pos
    }

    pub fn area_two_point(p0: IntPoint, p1: IntPoint, p2: IntPoint) -> (r: i64)
        requires
            area_fits(vec_of(p0), vec_of(p1), vec_of(p2)),
        ensures
            r == area_two_of(vec_of(p0), vec_of(p1), vec_of(p2)),
    {
        let x0 = p1.x as i64 - p0.x as i64;
        let y0 = p1.y as i64 - p0.y as i64;

        let x1 = p1.x as i64 - p2.x as i64;
        let y1 = p1.y as i64 - p2.y as i64;

        x0 * y1 - x1 * y0
    }

    pub fn is_clockwise_point(p0: IntPoint, p1: IntPoint, p2: IntPoint) -> (r: bool)
        requires
            area_fits(vec_of(p0), vec_of(p1), vec_of(p2)),
        ensures
            r == (area_two_of(vec_of(p0), vec_of(p1), vec_of(p2)) > 0),
    {
        Self::area_two_point(p0, p1, p2) > 0
    }

    pub fn is_cw_or_line_point(p0: IntPoint, p1: IntPoint, p2: IntPoint) -> (r: bool)
        requires
            area_fits(vec_of(p0), vec_of(p1), vec_of(p2)),
        ensures
            r == (area_two_of(vec_of(p0), vec_of(p1), vec_of(p2)) >= 0),
    {
        Self::area_two_point(p0, p1, p2) >= 0
    }

    pub fn is_line_point(p0: IntPoint, p1: IntPoint, p2: IntPoint) -> (r: bool)
        requires
            area_fits(vec_of(p0), vec_of(p1), vec_of(p2)),
        ensures
            r == (area_two_of(vec_of(p0), vec_of(p1), vec_of(p2)) == 0),
    {
        Self::area_two_point(p0, p1, p2) == 0
    }

    pub fn is_not_line_point(p0: IntPoint, p1: IntPoint, p2: IntPoint) -> (r: bool)
        requires
            area_fits(vec_of(p0), vec_of(p1), vec_of(p2)),
        ensures
            r == (area_two_of(vec_of(p0), vec_of(p1), vec_of(p2)) != 0),
    {
        Self::area_two_point(p0, p1, p2) != 0
    }

    pub fn clock_direction_point(p0: IntPoint, p1: IntPoint, p2: IntPoint) -> (r: i64)
        requires
            area_fits(vec_of(p0), vec_of(p1), vec_of(p2)),
        ensures
            r == sign(area_two_of(vec_of(p0), vec_of(p1), vec_of(p2))),
    {
        signum(Self::area_two_point(p0, p1, p2))
    }

    pub fn is_contain_point(p: IntPoint, p0: IntPoint, p1: IntPoint, p2: IntPoint) -> (r: bool)
        requires
            contain_fits(vec_of(p), vec_of(p0), vec_of(p1), vec_of(p2)),
        ensures
            r == contains_of(vec_of(p), vec_of(p0), vec_of(p1), vec_of(p2)),
    {
        let f = FixVec::new_point(p);
        let f0 = FixVec::new_point(p0);
        let f1 = FixVec::new_point(p1);
        let f2 = FixVec::new_point(p2);
        Self::is_contain(f, f0, f1, f2)
    }

    pub fn is_contain_point_exclude_borders(
        p: IntPoint,
        p0: IntPoint,
        p1: IntPoint,
        p2: IntPoint,
    ) -> (r: bool)
        requires
            contain_fits(vec_of(p), vec_of(p0), vec_of(p1), vec_of(p2)),
        ensures
            r == strictly_contains_of(vec_of(p), vec_of(p0), vec_of(p1), vec_of(p2)),
    {
        let f = FixVec::new_point(p);
        let f0 = FixVec::new_point(p0);
        let f1 = FixVec::new_point(p1);
        let f2 = FixVec::new_point(p2);

        let q0 = (f - f1).cross_product(f0 - f1);
        let q1 = (f - f2).cross_product(f1 - f2);
        let q2 = (f - f0).cross_product(f2 - f0);

        let has_neg = q0 < 0 || q1 < 0 || q2 < 0;
        let has_pos = q0 > 0 || q1 > 0 || q2 > 0;

        !(has_neg && has_pos) && q0 != 0 && q1 != 0 && q2 != 0
    }

    pub fn is_not_contain_point(p: IntPoint, p0: IntPoint, p1: IntPoint, p2: IntPoint) -> (r: bool)
        requires
            contain_fits(vec_of(p), vec_of(p0), vec_of(p1), vec_of(p2)),
        ensures
            r == not_contains_of(vec_of(p), vec_of(p0), vec_of(p1), vec_of(p2)),
    {
        let f = FixVec::new_point(p);
        let f0 = FixVec::new_point(p0);
        let f1 = FixVec::new_point(p1);
        let f2 = FixVec::new_point(p2);
        Self::is_not_contain(f, f0, f1, f2)
    }

    /// `Less` for a clockwise triangle, `Greater` for a counter-clockwise one, `Equal` for
    /// collinear points.
    pub fn clock_order_point(p0: IntPoint, p1: IntPoint, p2: IntPoint) -> (r: Ordering)
        requires
            area_fits(vec_of(p0), vec_of(p1), vec_of(p2)),
        ensures
            r == (if area_two_of(vec_of(p0), vec_of(p1), vec_of(p2)) > 0 {
                Ordering::Less
            } else if area_two_of(vec_of(p0), vec_of(p1), vec_of(p2)) < 0 {
                Ordering::Greater
            } else {
                Ordering::Equal
            }),
    {
        let a = Self::area_two_point(p0, p1, p2);
        if 0 < a {
            Ordering::Less
        } else if 0 > a {
            Ordering::Greater
        } else {
            Ordering::Equal
        }
    }
}

/// The sign of `v`.
fn signum(v: i64) -> (r: i64)
    ensures
        r == sign(v as int),
{
    if v > 0 {
        1
    } else if v < 0 {
        -1
    } else {
        0
    }
}

/// Halving by an arithmetic shift rounds down.
proof fn lemma_half(x: i64)
    ensures
        x >> 1 == floor_div(x as int, 2),
{
    assert(x >> 1 == x / 2) by (bit_vector);
}

/// Swapping any two vertices negates the doubled area, and of a triangle and its mirror
/// order exactly one is clockwise unless the points are collinear.
pub proof fn lemma_orientation_swaps(p0: FixVec, p1: FixVec, p2: FixVec)
    ensures
        area_two_of(p0, p2, p1) == -area_two_of(p0, p1, p2),
        area_two_of(p1, p0, p2) == -area_two_of(p0, p1, p2),
        area_two_of(p2, p1, p0) == -area_two_of(p0, p1, p2),
        area_two_of(p0, p1, p2) != 0 ==> ((area_two_of(p0, p1, p2) > 0) != (area_two_of(
            p0,
            p2,
            p1,
        ) > 0)),
{
    let (x0, y0, x1, y1, x2, y2) = (
        p0.x as int,
        p0.y as int,
        p1.x as int,
        p1.y as int,
        p2.x as int,
        p2.y as int,
    );
    assert(cross(x2 - x0, y2 - y0, x2 - x1, y2 - y1) == -cross(x1 - x0, y1 - y0, x1 - x2, y1 - y2))
        by (nonlinear_arith);
    assert(cross(x0 - x1, y0 - y1, x0 - x2, y0 - y2) == -cross(x1 - x0, y1 - y0, x1 - x2, y1 - y2))
        by (nonlinear_arith);
    assert(cross(x1 - x2, y1 - y2, x1 - x0, y1 - y0) == -cross(x1 - x0, y1 - y0, x1 - x2, y1 - y2))
        by (nonlinear_arith);
}

} // verus!
