use vstd::prelude::*;

verus! {

/// A fixed-point number: the raw integer `v` stands for `v / 2^10`.
pub type FixFloat = i64;

pub const FIX_FRACTION_BITS: usize = 10;
pub const FIX_SQR_FRACTION_BITS: i64 = 20;
pub const FIX_CUBE_FRACTION_BITS: i64 = 30;
pub const FIX_TETRA_FRACTION_BITS: i64 = 40;
pub const FIX_PENTA_FRACTION_BITS: i64 = 50;

/// The largest raw value whose products with another such value stay in 64 bits.
pub const FIX_MAX: i64 = 2147483647;
pub const FIX_MIN: i64 = -2147483648;

pub const FIX_ZERO: FixFloat = 0;
pub const FIX_UNIT: i64 = 1024;
pub const FIX_SQR_UNIT: i64 = 1048576;
pub const FIX_CUBE_UNIT: i64 = 1073741824;
pub const FIX_HALF: i64 = 512;
pub const FIX_PI: i64 = 3217;

/// `v` fits in a signed 64-bit integer.
pub open spec fn in_i64(v: int) -> bool {
    i64::MIN <= v <= i64::MAX
}

/// `v` fits in a signed 32-bit integer.
pub open spec fn in_i32(v: int) -> bool {
    i32::MIN <= v <= i32::MAX
}

/// Division rounded toward negative infinity (`b != 0`).
pub open spec fn floor_div(a: int, b: int) -> int {
    if b > 0 {
        a / b
    } else {
        (-a) / (-b)
    }
}

/// `r` is the integer square root of `v`: the largest integer whose square is at most `v`.
pub open spec fn is_isqrt(v: int, r: int) -> bool {
    0 <= r && r * r <= v && v < (r + 1) * (r + 1)
}

/// The integer square root of a non-negative `v`.
pub open spec fn isqrt(v: int) -> int {
    choose|r: int| is_isqrt(v, r)
}

/// An integer square root is unique.
pub proof fn lemma_isqrt_unique(v: int, a: int, b: int)
    requires
        is_isqrt(v, a),
        is_isqrt(v, b),
    ensures
        a == b,
{
    if a < b {
        assert((a + 1) * (a + 1) <= b * b) by (nonlinear_arith)
            requires 0 <= a, a + 1 <= b;
    } else if b < a {
        assert((b + 1) * (b + 1) <= a * a) by (nonlinear_arith)
            requires 0 <= b, b + 1 <= a;
    }
}

/// Any witness of the integer square root is the one `isqrt` names.
pub proof fn lemma_isqrt_is(v: int, r: int)
    requires
        is_isqrt(v, r),
    ensures
        isqrt(v) == r,
{
    assert(is_isqrt(v, isqrt(v)));
    lemma_isqrt_unique(v, r, isqrt(v));
}

/// Floor division by 2^10 is an arithmetic shift by 10.
proof fn lemma_shr_10(x: i64)
    ensures
        x >> 10 == floor_div(x as int, FIX_UNIT as int),
{
    assert(x >> 10 == x / 1024) by (bit_vector);
}

/// Floor division by 2^20 is an arithmetic shift by 20.
proof fn lemma_shr_20(x: i64)
    ensures
        x >> 20 == floor_div(x as int, FIX_SQR_UNIT as int),
{
    assert(x >> 20 == x / 1048576) by (bit_vector);
}

/// Divides, rounding toward negative infinity.
pub fn div_floor(a: i64, b: i64) -> (r: i64)
    requires
        b != 0,
        in_i64(floor_div(a as int, b as int)),
    ensures
        r == floor_div(a as int, b as int),
{
    let n: i128 = if b > 0 { a as i128 } else { -(a as i128) };
    let d: i128 = if b > 0 { b as i128 } else { -(b as i128) };
    let q: i128 = if n >= 0 {
        n / d
    } else {
        proof {
            lemma_floor_of_negative(n as int, d as int);
        }
        -((-n + d - 1) / d)
    };
    q as i64
}

/// For a negative numerator, the floor quotient is the negated ceiling of the negated numerator.
pub proof fn lemma_floor_of_negative(n: int, d: int)
    requires
        n < 0,
        d > 0,
    ensures
        n / d == -((-n + d - 1) / d),
{
    let k = -n + d - 1;
    let t = k / d;
    let s = k % d;
    vstd::arithmetic::div_mod::lemma_fundamental_div_mod(k, d);
    assert(n == (-t) * d + (d - 1 - s)) by (nonlinear_arith)
        requires k == d * t + s, k == -n + d - 1;
    vstd::arithmetic::div_mod::lemma_fundamental_div_mod_converse(n, d, -t, d - 1 - s);
}

/// The integer square root of a non-negative 64-bit integer, by bisection.
fn isqrt_i64(v: i64) -> (r: i64)
    requires
        v >= 0,
    ensures
        is_isqrt(v as int, r as int),
        r == isqrt(v as int),
{
    let mut lo: i64 = 0;
    // 3037000500 squared exceeds i64::MAX.
    let mut hi: i64 = 3037000500;
    assert(hi * hi > v) by (nonlinear_arith)
        requires hi == 3037000500, v <= i64::MAX;
    while hi - lo > 1
        invariant
            0 <= lo < hi <= 3037000500,
            lo * lo <= v,
            v < hi * hi,
        decreases hi - lo,
    {
        let mid = lo + (hi - lo) / 2;
        assert(mid * mid <= 3037000499 * 3037000499) by (nonlinear_arith)
            requires 0 <= mid <= 3037000499;
        if mid * mid <= v {
            lo = mid;
        } else {
            hi = mid;
        }
    }
    proof {
        lemma_isqrt_is(v as int, lo as int);
    }
    lo
}

/// Arithmetic on raw fixed-point values.
pub trait FixMath: Sized {
    /// The raw integer of the value.
    spec fn raw(self) -> int;

    /// The quotient of two fixed-point numbers, rounded down.
    fn fix_div(self, value: FixFloat) -> (r: FixFloat)
        requires
            value != 0,
            in_i64(self.raw() * FIX_UNIT),
            in_i64(floor_div(self.raw() * FIX_UNIT, value as int)),
        ensures
            r == floor_div(self.raw() * FIX_UNIT, value as int),
    ;

    /// The product of two fixed-point numbers, rounded down.
    fn fix_mul(self, value: FixFloat) -> (r: FixFloat)
        requires
            in_i64(self.raw() * value),
        ensures
            r == floor_div(self.raw() * value, FIX_UNIT as int),
    ;

    /// The square of a fixed-point number, rounded down.
    fn fix_sqr(self) -> (r: FixFloat)
        requires
            in_i64(self.raw() * self.raw()),
        ensures
            r == floor_div(self.raw() * self.raw(), FIX_UNIT as int),
    ;

    /// The square root of a fixed-point number, rounded down; zero for a negative one.
    fn fix_sqrt(self) -> (r: FixFloat)
        requires
            in_i64(self.raw() * FIX_UNIT),
        ensures
            self.raw() >= 0 ==> r == isqrt(self.raw() * FIX_UNIT),
            self.raw() >= 0 ==> is_isqrt(self.raw() * FIX_UNIT, r as int),
            self.raw() < 0 ==> r == 0,
    ;

    /// The square of the raw integer.
    fn sqr(self) -> (r: FixFloat)
        requires
            in_i64(self.raw() * self.raw()),
        ensures
            r == self.raw() * self.raw(),
    ;

    /// The integer square root of the raw integer; zero for a negative one.
    fn sqrt(self) -> (r: FixFloat)
        ensures
            self.raw() >= 0 ==> r == isqrt(self.raw()),
            self.raw() >= 0 ==> is_isqrt(self.raw(), r as int),
            self.raw() < 0 ==> r == 0,
    ;

    /// Drops the fraction bits, rounding down.
    fn fix_normalize(self) -> (r: FixFloat)
        ensures
            r == floor_div(self.raw(), FIX_UNIT as int),
    ;

    /// Drops twice the fraction bits, rounding down.
    fn fix_sqr_normalize(self) -> (r: FixFloat)
        ensures
            r == floor_div(self.raw(), FIX_SQR_UNIT as int),
    ;
}

impl FixMath for FixFloat {
    open spec fn raw(self) -> int {
        self as int
    }

    fn fix_div(self, value: FixFloat) -> (r: FixFloat) {
        div_floor(self * FIX_UNIT, value)
    }

    fn fix_mul(self, value: FixFloat) -> (r: FixFloat) {
        let p = self * value;
        proof {
            lemma_shr_10(p);
        }
        p >> 10
    }

    fn fix_sqr(self) -> (r: FixFloat) {
        let p = self * self;
        proof {
            lemma_shr_10(p);
        }
        p >> 10
    }

    fn fix_sqrt(self) -> (r: FixFloat) {
        if self < 0 {
            0
        } else {
            isqrt_i64(self * FIX_UNIT)
        }
    }

    fn sqr(self) -> (r: FixFloat) {
        self * self
    }

    fn sqrt(self) -> (r: FixFloat) {
        if self < 0 {
            0
        } else {
            isqrt_i64(self)
        }
    }

    fn fix_normalize(self) -> (r: FixFloat) {
        proof {
            lemma_shr_10(self);
        }
        self >> 10
    }

    fn fix_sqr_normalize(self) -> (r: FixFloat) {
        proof {
            lemma_shr_20(self);
        }
        self >> 20
    }
}

/// Conversion of a whole number to a fixed-point number.
pub trait FixConvert: Sized {
    /// The number that is converted.
    spec fn number(self) -> int;

    /// The fixed-point number with the same value.
    fn fix(self) -> (r: FixFloat)
        requires
            in_i64(self.number() * FIX_UNIT),
        ensures
            r == self.number() * FIX_UNIT,
    ;
}

impl FixConvert for i64 {
    open spec fn number(self) -> int {
        self as int
    }

    fn fix(self) -> (r: FixFloat) {
        self * FIX_UNIT
    }
}

} // verus!
