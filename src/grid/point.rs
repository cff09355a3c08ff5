use std::cmp::Ordering;
use vstd::prelude::*;
use crate::fix_float::{in_i32, in_i64};
use crate::fix_vec::FixVec;

verus! {

/// A point of the signed 32-bit integer grid.
#[derive(Debug, Clone, Copy, PartialEq, Eq, Hash, Structural, Ord)]
pub struct IntPoint {
    pub x: i32,
    pub y: i32,
}

/// `(ax, ay)` comes before `(bx, by)` in the order of x, then y.
pub open spec fn lex_less(ax: int, ay: int, bx: int, by: int) -> bool {
    ax < bx || (ax == bx && ay < by)
}

impl IntPoint {
    pub fn new(x: i32, y: i32) -> (r: Self)
        ensures
            r.x == x,
            r.y == y,
    {
        Self { x, y }
    }

    /// The point whose coordinates are the vector's, cut to their low 32 bits.
    pub fn new_fix_vec(vec: FixVec) -> (r: Self)
        ensures
            r.x == vec.x as i32,
            r.y == vec.y as i32,
    {
        Self {
            x: #[verifier::truncate] (vec.x as i32),
            y: #[verifier::truncate] (vec.y as i32),
        }
    }

    /// The cross product of the two points taken as vectors; it always fits in 64 bits.
    pub fn cross_product(self, v: Self) -> (r: i64)
        ensures
            r == self.x * v.y - self.y * v.x,
    {
        proof {
            lemma_cross_fits(self.x as int, self.y as int, v.x as int, v.y as int);
        }
        let a = (self.x as i64) * (v.y as i64);
        let b = (self.y as i64) * (v.x as i64);
        a - b
    }

    pub fn dot_product(self, v: Self) -> (r: i64)
        requires
            in_i64(self.x * v.x + self.y * v.y),
        ensures
            r == self.x * v.x + self.y * v.y,
    {
        proof {
            lemma_product_fits(self.x as int, v.x as int);
            lemma_product_fits(self.y as int, v.y as int);
        }
        let xx = (self.x as i64) * (v.x as i64);
        let yy = (self.y as i64) * (v.y as i64);
        xx + yy
    }

    /// The vector from `other` to `self`.
    pub fn subtract(self, other: IntPoint) -> (r: FixVec)
        ensures
            r.x == self.x - other.x,
            r.y == self.y - other.y,
    {
        let x = (self.x as i64) - (other.x as i64);
        let y = (self.y as i64) - (other.y as i64);
        FixVec::new(x, y)
    }

    pub fn sqr_length(self) -> (r: i64)
        requires
            in_i64(self.x * self.x + self.y * self.y),
        ensures
            r == self.x * self.x + self.y * self.y,
    {
        proof {
            lemma_product_fits(self.x as int, self.x as int);
            lemma_product_fits(self.y as int, self.y as int);
        }
        let x = self.x as i64;
        let y = self.y as i64;
        x * x + y * y
    }

    /// The squared distance between two points.
    pub fn sqr_distance(self, other: IntPoint) -> (r: i64)
        requires
            in_i64(
                (self.x - other.x) * (self.x - other.x) + (self.y - other.y) * (self.y - other.y),
            ),
        ensures
            r == (self.x - other.x) * (self.x - other.x) + (self.y - other.y) * (self.y
                - other.y),
    {
        let x = (self.x as i64) - (other.x as i64);
        let y = (self.y as i64) - (other.y as i64);
        assert(0 <= x * x && 0 <= y * y) by (nonlinear_arith);
        x * x + y * y
    }
}

/// The product of two 32-bit integers fits in 64 bits.
proof fn lemma_product_fits(a: int, b: int)
    requires
        in_i32(a),
        in_i32(b),
    ensures
        -0x4000_0000_0000_0000 + 0x8000_0000 <= a * b <= 0x4000_0000_0000_0000,
{
    assert(-0x4000_0000_0000_0000 + 0x8000_0000 <= a * b <= 0x4000_0000_0000_0000)
        by (nonlinear_arith)
        requires -0x8000_0000 <= a <= 0x7fff_ffff, -0x8000_0000 <= b <= 0x7fff_ffff;
}

/// The cross product of two vectors with 32-bit coordinates fits in 64 bits.
proof fn lemma_cross_fits(ax: int, ay: int, bx: int, by: int)
    requires
        in_i32(ax),
        in_i32(ay),
        in_i32(bx),
        in_i32(by),
    ensures
        in_i64(ax * by),
        in_i64(ay * bx),
        in_i64(ax * by - ay * bx),
{
    lemma_product_fits(ax, by);
    lemma_product_fits(ay, bx);
}

/// Ordered by x, then by y.
impl PartialOrd for IntPoint {
    fn partial_cmp(&self, other: &Self) -> (r: Option<Ordering>) {
        if self.x == other.x && self.y == other.y {
            Some(Ordering::Equal)
        } else if self.x < other.x || (self.x == other.x && self.y < other.y) {
            Some(Ordering::Less)
        } else {
            Some(Ordering::Greater)
        }
    }
}

impl vstd::std_specs::cmp::PartialOrdSpecImpl for IntPoint {
    open spec fn obeys_partial_cmp_spec() -> bool {
        true
    }

    open spec fn partial_cmp_spec(&self, other: &Self) -> Option<Ordering> {
        if self.x == other.x && self.y == other.y {
            Some(Ordering::Equal)
        } else if lex_less(self.x as int, self.y as int, other.x as int, other.y as int) {
            Some(Ordering::Less)
        } else {
            Some(Ordering::Greater)
        }
    }
}

impl std::ops::Add for IntPoint {
    type Output = IntPoint;

    fn add(self, other: IntPoint) -> (r: IntPoint) {
        IntPoint { x: self.x + other.x, y: self.y + other.y }
    }
}

impl vstd::std_specs::ops::AddSpecImpl for IntPoint {
    open spec fn obeys_add_spec() -> bool {
        true
    }

    open spec fn add_req(self, other: IntPoint) -> bool {
        in_i32(self.x + other.x) && in_i32(self.y + other.y)
    }

    open spec fn add_spec(self, other: IntPoint) -> IntPoint {
        IntPoint { x: (self.x + other.x) as i32, y: (self.y + other.y) as i32 }
    }
}

impl std::ops::Sub for IntPoint {
    type Output = IntPoint;

    fn sub(self, other: IntPoint) -> (r: IntPoint) {
        IntPoint { x: self.x - other.x, y: self.y - other.y }
    }
}

impl vstd::std_specs::ops::SubSpecImpl for IntPoint {
    open spec fn obeys_sub_spec() -> bool {
        true
    }

    open spec fn sub_req(self, other: IntPoint) -> bool {
        in_i32(self.x - other.x) && in_i32(self.y - other.y)
    }

    open spec fn sub_spec(self, other: IntPoint) -> IntPoint {
        IntPoint { x: (self.x - other.x) as i32, y: (self.y - other.y) as i32 }
    }
}

} // verus!
