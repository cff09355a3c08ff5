use vstd::prelude::*;
use crate::fix_float::{
    floor_div, in_i64, isqrt, is_isqrt, lemma_floor_of_negative, lemma_isqrt_is, FixConvert,
    FixFloat, FixMath,
    FIX_UNIT, FIX_ZERO,
};
use crate::grid::point::IntPoint;
use crate::u128::{half_base, lemma_value_order, UInt128};

verus! {

/// The squared length of the vector `(x, y)`.
pub open spec fn sqr_len(x: int, y: int) -> int {
    x * x + y * y
}

/// The dot product of `(ax, ay)` and `(bx, by)`.
pub open spec fn dot(ax: int, ay: int, bx: int, by: int) -> int {
    ax * bx + ay * by
}

/// The cross product of `(ax, ay)` and `(bx, by)`: positive when `b` turns counter-clockwise from `a`.
pub open spec fn cross(ax: int, ay: int, bx: int, by: int) -> int {
    ax * by - ay * bx
}

/// A vector of two fixed-point numbers (or of two plain integers, for the integer operations).
#[derive(Debug, Clone, Copy, PartialEq, Eq, Hash, Structural)]
pub struct FixVec {
    pub x: FixFloat,
    pub y: FixFloat,
}

/// The vector that `fix_normalize` returns for a non-zero vector: each coordinate times
/// 1024 divided by the length, rounded down.
pub open spec fn normalized(v: FixVec) -> FixVec {
    let l = isqrt(sqr_len(v.x as int, v.y as int));
    FixVec {
        x: floor_div(v.x * FIX_UNIT, l) as i64,
        y: floor_div(v.y * FIX_UNIT, l) as i64,
    }
}

/// The bounds of a 64-bit integer with the fraction bits dropped.
proof fn lemma_unit_floor_bounds(p: int)
    requires
        in_i64(p),
    ensures
        -0x20_0000_0000_0000 <= floor_div(p, FIX_UNIT as int) < 0x20_0000_0000_0000,
{
    let q = p / 1024;
    vstd::arithmetic::div_mod::lemma_fundamental_div_mod(p, 1024);
    assert(-0x20_0000_0000_0000 <= q < 0x20_0000_0000_0000) by (nonlinear_arith)
        requires
            p == 1024 * q + p % 1024,
            0 <= p % 1024 < 1024,
            in_i64(p);
}

impl FixVec {
    pub fn is_zero(self) -> (r: bool)
        ensures
            r == (self.x == 0 && self.y == 0),
    {
        self.x == FIX_ZERO && self.y == FIX_ZERO
    }

    pub fn new(x: i64, y: i64) -> (r: Self)
        ensures
            r.x == x,
            r.y == y,
    {
        Self { x, y }
    }

    /// The vector of two whole numbers, as fixed-point numbers.
    pub fn new_number(x: i64, y: i64) -> (r: Self)
        requires
            in_i64(x * FIX_UNIT),
            in_i64(y * FIX_UNIT),
        ensures
            r.x == x * FIX_UNIT,
            r.y == y * FIX_UNIT,
    {
        Self { x: x.fix(), y: y.fix() }
    }

    pub fn new_point(point: IntPoint) -> (r: Self)
        ensures
            r.x == point.x,
            r.y == point.y,
    {
        Self { x: point.x as i64, y: point.y as i64 }
    }

    /// The squared length as a fixed-point number, rounded down.
    pub fn fix_sqr_length(self) -> (r: FixFloat)
        requires
            in_i64(sqr_len(self.x as int, self.y as int)),
        ensures
            r == floor_div(sqr_len(self.x as int, self.y as int), FIX_UNIT as int),
    {
        self.sqr_length().fix_normalize()
    }

    /// The length of a fixed-point vector, as a fixed-point number rounded down.
    pub fn fix_length(self) -> (r: FixFloat)
        requires
            sqr_len(self.x as int, self.y as int) < wide_sqr_limit(),
        ensures
            r == isqrt(sqr_len(self.x as int, self.y as int)),
    {
        self.length()
    }

    /// The vector of the same direction and length one (1024 in raw units), up to rounding:
    /// each coordinate lies within 1024, and for a vector at least one unit long the length
    /// of the result is within three raw units of 1024.
    pub fn fix_normalize(self) -> (r: Self)
        requires
            !(self.x == 0 && self.y == 0),
            sqr_len(self.x as int, self.y as int) < wide_sqr_limit(),
        ensures
            r == normalized(self),
            -FIX_UNIT <= r.x <= FIX_UNIT,
            -FIX_UNIT <= r.y <= FIX_UNIT,
            isqrt(sqr_len(self.x as int, self.y as int)) >= FIX_UNIT ==> 1021 * 1021 <= sqr_len(
                r.x as int,
                r.y as int,
            ) <= 1027 * 1027,
    {
        let l = self.length();
        let ghost sq = sqr_len(self.x as int, self.y as int);
        proof {
            assert(is_isqrt(sq, l as int));
            assert(sq >= 1) by (nonlinear_arith)
                requires sq == self.x * self.x + self.y * self.y, !(self.x == 0 && self.y == 0);
            assert(l >= 1) by (nonlinear_arith)
                requires sq >= 1, sq < (l + 1) * (l + 1), l >= 0;
            lemma_coordinate_within_length(self.x as int, self.y as int, l as int);
            lemma_coordinate_within_length(self.y as int, self.x as int, l as int);
        }
        let x = unit_fraction(self.x, l);
        let y = unit_fraction(self.y, l);
        proof {
            if l >= FIX_UNIT {
                lemma_normalized_length(self.x as int, self.y as int, l as int, x as int, y as int);
            }
        }
        Self { x, y }
    }

    /// `fix_normalize`, or `(0, 1)` (that is `(0, 1024)` raw) for the zero vector.
    pub fn fix_safe_normalize(self) -> (r: Self)
        requires
            sqr_len(self.x as int, self.y as int) < wide_sqr_limit(),
        ensures
            self.x == 0 && self.y == 0 ==> r == (FixVec { x: 0, y: FIX_UNIT }),
            !(self.x == 0 && self.y == 0) ==> r == normalized(self),
    {
        self.fix_normalize_with_def_value(Self::new_number(0, 1))
    }

    /// `fix_normalize`, or `def` for the zero vector.
    pub fn fix_normalize_with_def_value(self, def: Self) -> (r: Self)
        requires
            sqr_len(self.x as int, self.y as int) < wide_sqr_limit(),
        ensures
            self.x == 0 && self.y == 0 ==> r == def,
            !(self.x == 0 && self.y == 0) ==> r == normalized(self),
    {
        if self.is_zero() {
            return def;
        }
        self.fix_normalize()
    }

    /// The dot product of two fixed-point vectors, each product rounded down.
    pub fn fix_dot_product(self, v: Self) -> (r: FixFloat)
        requires
            in_i64(self.x * v.x),
            in_i64(self.y * v.y),
            in_i64(floor_div(self.x * v.x, FIX_UNIT as int) + floor_div(self.y * v.y, FIX_UNIT as int)),
        ensures
            r == floor_div(self.x * v.x, FIX_UNIT as int) + floor_div(self.y * v.y, FIX_UNIT as int),
    {
        let xx = self.x.fix_mul(v.x);
        let yy = self.y.fix_mul(v.y);
        xx + yy
    }

    /// The cross product of two fixed-point vectors, each product rounded down.
    pub fn fix_cross_product(self, v: Self) -> (r: FixFloat)
        requires
            in_i64(self.x * v.y),
            in_i64(self.y * v.x),
            in_i64(floor_div(self.x * v.y, FIX_UNIT as int) - floor_div(self.y * v.x, FIX_UNIT as int)),
        ensures
            r == floor_div(self.x * v.y, FIX_UNIT as int) - floor_div(self.y * v.x, FIX_UNIT as int),
    {
        let a = self.x.fix_mul(v.y);
        let b = self.y.fix_mul(v.x);
        a - b
    }

    /// The cross product of the scalar `a` (as a vector out of the plane) with this vector.
    pub fn fix_cross_product_scalar(self, a: FixFloat) -> (r: Self)
        requires
            in_i64(a * self.y),
            in_i64(a * self.x),
        ensures
            r.x == -floor_div(a * self.y, FIX_UNIT as int),
            r.y == floor_div(a * self.x, FIX_UNIT as int),
    {
        let x0 = a.fix_mul(self.y);
        let y0 = a.fix_mul(self.x);
        proof {
            lemma_unit_floor_bounds(a * self.y);
        }
        Self::new(-x0, y0)
    }

    /// The squared distance as a fixed-point number, rounded down.
    pub fn fix_sqr_distance(self, v: Self) -> (r: FixFloat)
        requires
            in_i64(self.x - v.x),
            in_i64(self.y - v.y),
            in_i64(sqr_len(self.x - v.x, self.y - v.y)),
        ensures
            r == floor_div(sqr_len(self.x - v.x, self.y - v.y), FIX_UNIT as int),
    {
        (self - v).fix_sqr_length()
    }

    /// The distance between two points: the length of their difference vector.
    pub fn fix_distance(self, v: Self) -> (r: FixFloat)
        requires
            in_i64(self.x - v.x),
            in_i64(self.y - v.y),
            sqr_len(self.x - v.x, self.y - v.y) < wide_sqr_limit(),
        ensures
            r == isqrt(sqr_len(self.x - v.x, self.y - v.y)),
    {
        (self - v).length()
    }

    /// Half of the vector, each coordinate rounded down.
    pub fn half(self) -> (r: FixVec)
        ensures
            r.x == floor_div(self.x as int, 2),
            r.y == floor_div(self.y as int, 2),
    {
        proof {
            lemma_shr_1(self.x);
            lemma_shr_1(self.y);
        }
        FixVec::new(self.x >> 1, self.y >> 1)
    }

    /// The point halfway between two points, each coordinate rounded down.
    pub fn middle(self, v: Self) -> (r: FixVec)
        requires
            in_i64(self.x + v.x),
            in_i64(self.y + v.y),
        ensures
            r.x == floor_div(self.x + v.x, 2),
            r.y == floor_div(self.y + v.y, 2),
    {
        let sum = self + v;
        proof {
            lemma_shr_1(sum.x);
            lemma_shr_1(sum.y);
        }
        Self::new(sum.x >> 1, sum.y >> 1)
    }

    pub fn sqr_length(self) -> (r: i64)
        requires
            in_i64(sqr_len(self.x as int, self.y as int)),
        ensures
            r == sqr_len(self.x as int, self.y as int),
    {
        proof {
            lemma_squares_fit(self.x as int, self.y as int);
        }
        self.x.sqr() + self.y.sqr()
    }

    /// The integer square root of the squared length. The squares are summed in 128 bits,
    /// so only the root itself has to fit in 64 bits.
    pub fn length(self) -> (r: FixFloat)
        requires
            sqr_len(self.x as int, self.y as int) < wide_sqr_limit(),
        ensures
            r == isqrt(sqr_len(self.x as int, self.y as int)),
            is_isqrt(sqr_len(self.x as int, self.y as int), r as int),
    {
        let r = isqrt_wide(wide_sqr_sum(self.x, self.y));
        proof {
            lemma_isqrt_is(sqr_len(self.x as int, self.y as int), r as int);
        }
        r as i64
    }

    pub fn dot_product(self, v: Self) -> (r: i64)
        requires
            in_i64(self.x * v.x),
            in_i64(self.y * v.y),
            in_i64(dot(self.x as int, self.y as int, v.x as int, v.y as int)),
        ensures
            r == dot(self.x as int, self.y as int, v.x as int, v.y as int),
    {
        let xx = self.x * v.x;
        let yy = self.y * v.y;
        xx + yy
    }

    pub fn cross_product(self, v: Self) -> (r: i64)
        requires
            in_i64(self.x * v.y),
            in_i64(self.y * v.x),
            in_i64(cross(self.x as int, self.y as int, v.x as int, v.y as int)),
        ensures
            r == cross(self.x as int, self.y as int, v.x as int, v.y as int),
    {
        let a = self.x * v.y;
        let b = self.y * v.x;
        a - b
    }

    pub fn sqr_distance(self, v: Self) -> (r: i64)
        requires
            in_i64(self.x - v.x),
            in_i64(self.y - v.y),
            in_i64(sqr_len(self.x - v.x, self.y - v.y)),
        ensures
            r == sqr_len(self.x - v.x, self.y - v.y),
    {
        (self - v).sqr_length()
    }
}

/// `a * 1024 / l` rounded down, for `|a| <= l`: a coordinate as a fraction of the length.
fn unit_fraction(a: i64, l: i64) -> (r: i64)
    requires
        l >= 1,
        -l <= a <= l,
    ensures
        r == floor_div(a * FIX_UNIT, l as int),
        0 <= a * FIX_UNIT - r * l < l,
        -FIX_UNIT <= r <= FIX_UNIT,
{
    let n: i128 = (a as i128) * 1024;
    let d: i128 = l as i128;
    let q: i128 = if n >= 0 {
        n / d
    } else {
        proof {
            lemma_floor_of_negative(n as int, d as int);
        }
        -((-n + d - 1) / d)
    };
    proof {
        let fq = (n as int) / (d as int);
        vstd::arithmetic::div_mod::lemma_fundamental_div_mod(n as int, d as int);
        assert(-1024 <= fq <= 1024) by (nonlinear_arith)
            requires
                n == d * fq + (n as int) % (d as int),
                0 <= (n as int) % (d as int) < d,
                -1024 * d <= n <= 1024 * d,
                d >= 1;
        assert(q == fq);
        assert(0 <= n - fq * d < d) by (nonlinear_arith)
            requires
                n == d * fq + (n as int) % (d as int),
                0 <= (n as int) % (d as int) < d;
    }
    q as i64
}

/// Rounding each coordinate of `1024 * (x, y) / l` down, where `l` is the integer square root
/// of the squared length and at least 1024, gives a vector whose length is within three
/// units of 1024.
pub proof fn lemma_normalized_length(x: int, y: int, l: int, rx: int, ry: int)
    requires
        l >= 1024,
        is_isqrt(x * x + y * y, l),
        -l <= x <= l,
        -l <= y <= l,
        0 <= 1024 * x - rx * l < l,
        0 <= 1024 * y - ry * l < l,
    ensures
        1021 * 1021 <= rx * rx + ry * ry <= 1027 * 1027,
{
    let dx = 1024 * x - rx * l;
    let dy = 1024 * y - ry * l;
    let p = rx * rx + ry * ry;
    let ll = l * l;
    let s = x * x + y * y;
    assert(p * ll == 1048576 * s - 2048 * (x * dx + y * dy) + dx * dx + dy * dy)
        by (nonlinear_arith)
        requires
            dx == 1024 * x - rx * l,
            dy == 1024 * y - ry * l,
            p == rx * rx + ry * ry,
            ll == l * l,
            s == x * x + y * y;
    assert(-ll <= x * dx <= ll) by (nonlinear_arith)
        requires -l <= x <= l, 0 <= dx < l, ll == l * l;
    assert(-ll <= y * dy <= ll) by (nonlinear_arith)
        requires -l <= y <= l, 0 <= dy < l, ll == l * l;
    assert(0 <= dx * dx + dy * dy <= 2 * ll) by (nonlinear_arith)
        requires 0 <= dx < l, 0 <= dy < l, ll == l * l;
    assert(ll <= s < ll + 2 * l + 1) by (nonlinear_arith)
        requires ll == l * l, l * l <= s, s < (l + 1) * (l + 1);
    assert(1048576 * (2 * l + 1) <= 2055 * ll) by (nonlinear_arith)
        requires l >= 1024, ll == l * l;
    assert(p * ll < 1054729 * ll);
    assert(p * ll >= 1042441 * ll);
    assert(p < 1054729) by (nonlinear_arith)
        requires p * ll < 1054729 * ll, ll > 0;
    assert(p >= 1042441) by (nonlinear_arith)
        requires p * ll >= 1042441 * ll, ll > 0;
}

/// `2^126`: squared lengths below it have a root below `2^63`.
pub open spec fn wide_sqr_limit() -> int {
    0x4000_0000_0000_0000_0000_0000_0000_0000
}

/// The magnitude of a 64-bit integer.
fn abs_u64(v: i64) -> (r: u64)
    ensures
        r == (if v < 0 { -v } else { v as int }),
{
    if v < 0 {
        (-(v as i128)) as u64
    } else {
        v as u64
    }
}

/// `x * x + y * y` exactly, in 128 bits.
fn wide_sqr_sum(x: i64, y: i64) -> (r: UInt128)
    ensures
        r.value() == sqr_len(x as int, y as int),
{
    let ax = abs_u64(x);
    let ay = abs_u64(y);
    let sx = UInt128::multiply(ax, ax);
    let sy = UInt128::multiply(ay, ay);
    proof {
        assert(ax * ax == x * x && ay * ay == y * y) by (nonlinear_arith)
            requires
                ax == (if x < 0 { -x } else { x as int }),
                ay == (if y < 0 { -y } else { y as int });
        assert(ax * ax <= 0x8000_0000_0000_0000 * 0x8000_0000_0000_0000) by (nonlinear_arith)
            requires ax <= 0x8000_0000_0000_0000;
        assert(ay * ay <= 0x8000_0000_0000_0000 * 0x8000_0000_0000_0000) by (nonlinear_arith)
            requires ay <= 0x8000_0000_0000_0000;
        assert(sx.high <= 0x4000_0000_0000_0000) by (nonlinear_arith)
            requires
                sx.high * half_base() + sx.low <= 0x8000_0000_0000_0000 * 0x8000_0000_0000_0000,
                half_base() == 0x1_0000_0000_0000_0000,
                sx.low >= 0;
        assert(sy.high <= 0x4000_0000_0000_0000) by (nonlinear_arith)
            requires
                sy.high * half_base() + sy.low <= 0x8000_0000_0000_0000 * 0x8000_0000_0000_0000,
                half_base() == 0x1_0000_0000_0000_0000,
                sy.low >= 0;
    }
    let low = sx.low.wrapping_add(sy.low);
    let carry: u64 = if low < sx.low { 1 } else { 0 };
    UInt128::new(sx.high + sy.high + carry, low)
}

/// The integer square root of a 128-bit number below `2^126`, by bisection with exact
/// 128-bit squares.
fn isqrt_wide(v: UInt128) -> (r: u64)
    requires
        v.value() < wide_sqr_limit(),
    ensures
        is_isqrt(v.value() as int, r as int),
        r < 0x8000_0000_0000_0000,
{
    let mut lo: u64 = 0;
    let mut hi: u64 = 0x8000_0000_0000_0000;
    while hi - lo > 1
        invariant
            lo < hi <= 0x8000_0000_0000_0000,
            lo * lo <= v.value(),
            v.value() < hi * hi,
        decreases hi - lo,
    {
        let mid = lo + (hi - lo) / 2;
        let m = UInt128::multiply(mid, mid);
        proof {
            lemma_value_order(m, v);
        }
        if m.high < v.high || (m.high == v.high && m.low <= v.low) {
            lo = mid;
        } else {
            hi = mid;
        }
    }
    lo
}

/// Halving by an arithmetic shift rounds down.
proof fn lemma_shr_1(x: i64)
    ensures
        x >> 1 == floor_div(x as int, 2),
{
    assert(x >> 1 == x / 2) by (bit_vector);
}

/// When a sum of two squares fits in 64 bits, so does each square.
proof fn lemma_squares_fit(x: int, y: int)
    requires
        in_i64(sqr_len(x, y)),
    ensures
        in_i64(x * x),
        in_i64(y * y),
        sqr_len(x, y) >= 0,
{
    assert(0 <= x * x && 0 <= y * y) by (nonlinear_arith);
}

/// A coordinate is no longer than the integer square root of the squared length.
proof fn lemma_coordinate_within_length(a: int, b: int, l: int)
    requires
        is_isqrt(a * a + b * b, l),
    ensures
        -l <= a <= l,
{
    assert(a * a < (l + 1) * (l + 1)) by (nonlinear_arith)
        requires a * a + b * b < (l + 1) * (l + 1);
    if a > l {
        assert((l + 1) * (l + 1) <= a * a) by (nonlinear_arith)
            requires a >= l + 1, l >= 0;
    }
    if a < -l {
        assert((l + 1) * (l + 1) <= a * a) by (nonlinear_arith)
            requires -a >= l + 1, l >= 0;
    }
}

impl std::ops::Mul<i64> for FixVec {
    type Output = FixVec;

    fn mul(self, scalar: i64) -> (r: Self) {
        Self { x: self.x * scalar, y: self.y * scalar }
    }
}

impl vstd::std_specs::ops::MulSpecImpl<i64> for FixVec {
    open spec fn obeys_mul_spec() -> bool {
        true
    }

    open spec fn mul_req(self, scalar: i64) -> bool {
        in_i64(self.x * scalar) && in_i64(self.y * scalar)
    }

    open spec fn mul_spec(self, scalar: i64) -> FixVec {
        FixVec { x: (self.x * scalar) as i64, y: (self.y * scalar) as i64 }
    }
}

impl std::ops::Add for FixVec {
    type Output = FixVec;

    fn add(self, other: FixVec) -> (r: FixVec) {
        FixVec { x: self.x + other.x, y: self.y + other.y }
    }
}

impl vstd::std_specs::ops::AddSpecImpl for FixVec {
    open spec fn obeys_add_spec() -> bool {
        true
    }

    open spec fn add_req(self, other: FixVec) -> bool {
        in_i64(self.x + other.x) && in_i64(self.y + other.y)
    }

    open spec fn add_spec(self, other: FixVec) -> FixVec {
        FixVec { x: (self.x + other.x) as i64, y: (self.y + other.y) as i64 }
    }
}

impl std::ops::Sub for FixVec {
    type Output = FixVec;

    fn sub(self, other: FixVec) -> (r: FixVec) {
        FixVec { x: self.x - other.x, y: self.y - other.y }
    }
}

impl vstd::std_specs::ops::SubSpecImpl for FixVec {
    open spec fn obeys_sub_spec() -> bool {
        true
    }

    open spec fn sub_req(self, other: FixVec) -> bool {
        in_i64(self.x - other.x) && in_i64(self.y - other.y)
    }

    open spec fn sub_spec(self, other: FixVec) -> FixVec {
        FixVec { x: (self.x - other.x) as i64, y: (self.y - other.y) as i64 }
    }
}

} // verus!
