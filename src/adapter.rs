use vstd::prelude::*;
use vstd::arithmetic::power2::{
    lemma2_to64, lemma_pow2_strictly_increases, lemma_pow2_unfold, pow2,
};

verus! {

/// The number of bits that a scaled half-extent may use below the sign bit and two guard bits.
pub const ADAPTER_HEADROOM_BITS: i32 = 29;

/// The biased exponent field of an IEEE-754 double held in `bits`.
pub open spec fn f64_exponent_field(bits: u64) -> int {
    (bits as int / 0x10_0000_0000_0000) % 0x800
}

/// The fraction field of an IEEE-754 double held in `bits`.
pub open spec fn f64_fraction_field(bits: u64) -> int {
    bits as int % 0x10_0000_0000_0000
}

/// The integer significand of a finite double: its value is this times 2 to `f64_binary_exponent`.
pub open spec fn f64_significand(bits: u64) -> int {
    if f64_exponent_field(bits) == 0 {
        f64_fraction_field(bits)
    } else {
        f64_fraction_field(bits) + 0x10_0000_0000_0000
    }
}

/// The power of two that scales `f64_significand` to the value of a finite double.
pub open spec fn f64_binary_exponent(bits: u64) -> int {
    if f64_exponent_field(bits) == 0 {
        -1074
    } else {
        f64_exponent_field(bits) - 1075
    }
}

/// The double held in `bits` is zero (of either sign).
pub open spec fn f64_is_zero(bits: u64) -> bool {
    f64_exponent_field(bits) == 0 && f64_fraction_field(bits) == 0
}

/// The double held in `bits` is finite and not below zero.
pub open spec fn f64_is_finite_non_negative(bits: u64) -> bool {
    bits < 0x7ff0_0000_0000_0000 || bits == 0x8000_0000_0000_0000
}

/// The largest `k` with `2^k <= n`, for a positive `n`.
pub open spec fn floor_log2_nat(n: nat) -> nat
    decreases n,
{
    if n <= 1 {
        0
    } else {
        1 + floor_log2_nat(n / 2)
    }
}

/// The largest `k` with `2^k` at most the value of a positive finite double.
pub open spec fn f64_floor_log2(bits: u64) -> int {
    f64_binary_exponent(bits) + floor_log2_nat(f64_significand(bits) as nat)
}

/// The power-of-two scale of a coordinate adapter: a real coordinate `v` maps to the
/// integer `round((v - offset) * 2^exponent)` and back by `i * 2^-exponent + offset`.
#[derive(Debug, Clone, Copy, PartialEq, Eq, Structural)]
pub struct GridScale {
    pub exponent: i32,
}

/// The base-two logarithm of a positive integer, rounded down.
fn floor_log2_u64(n: u64) -> (r: i32)
    requires
        n >= 1,
    ensures
        r == floor_log2_nat(n as nat),
        0 <= r < 64,
{
    let mut m = n;
    let mut k: i32 = 0;
    proof {
        lemma_floor_log2_bound(n as nat);
    }
    while m > 1
        invariant
            m >= 1,
            k >= 0,
            k + floor_log2_nat(m as nat) == floor_log2_nat(n as nat),
            floor_log2_nat(n as nat) < 64,
        decreases m,
    {
        m = m / 2;
        k = k + 1;
    }
    k
}

/// A 64-bit number has a base-two logarithm below 64.
proof fn lemma_floor_log2_bound(n: nat)
    requires
        1 <= n <= u64::MAX,
    ensures
        floor_log2_nat(n) < 64,
{
    lemma_floor_log2_pow(n);
    lemma2_to64();
    if floor_log2_nat(n) > 64 {
        lemma_pow2_strictly_increases(64, floor_log2_nat(n));
    }
}

/// `2^floor_log2_nat(n) <= n`.
proof fn lemma_floor_log2_pow(n: nat)
    requires
        n >= 1,
    ensures
        pow2(floor_log2_nat(n)) <= n,
    decreases n,
{
    if n > 1 {
        lemma_floor_log2_pow(n / 2);
        lemma_pow2_unfold(floor_log2_nat(n));
        assert(pow2(floor_log2_nat(n)) == 2
            * pow2(floor_log2_nat(n / 2)));
    } else {
        lemma2_to64();
    }
}

impl GridScale {
    /// The unit scale.
    pub open spec fn is_unit(self) -> bool {
        self.exponent == 0
    }

    /// The scale that maps a half-extent of `magnitude` (the larger half side of the
    /// calibration rectangle, given by its IEEE-754 bits) to below `2^30`, and that is one
    /// for a zero magnitude.
    pub fn with_magnitude_bits(magnitude_bits: u64) -> (r: Self)
        requires
            f64_is_finite_non_negative(magnitude_bits),
        ensures
            f64_is_zero(magnitude_bits) ==> r.exponent == 0,
            !f64_is_zero(magnitude_bits) ==> r.exponent == ADAPTER_HEADROOM_BITS - f64_floor_log2(
                magnitude_bits,
            ),
    {
        let b = magnitude_bits;
        let field = (b >> 52) & 0x7ff;
        let fraction = b & 0xf_ffff_ffff_ffff;
        assert(field == (b / 0x10_0000_0000_0000) % 0x800) by (bit_vector)
            requires field == (b >> 52) & 0x7ff;
        assert(fraction == b % 0x10_0000_0000_0000) by (bit_vector)
            requires fraction == b & 0xf_ffff_ffff_ffff;
        if field == 0 && fraction == 0 {
            return Self { exponent: 0 };
        }
        let significand = if field == 0 {
            fraction
        } else {
            assert(fraction | 0x10_0000_0000_0000 == fraction + 0x10_0000_0000_0000)
                by (bit_vector)
                requires fraction == b & 0xf_ffff_ffff_ffff;
            fraction | 0x10_0000_0000_0000
        };
        let binary_exponent: i32 = if field == 0 {
            -1074
        } else {
            field as i32 - 1075
        };
        let k = floor_log2_u64(significand);
        Self { exponent: ADAPTER_HEADROOM_BITS - (binary_exponent + k) }
    }

    /// The exponent of the real-to-integer multiplier `2^e`.
    pub fn dir_exponent(&self) -> (r: i32)
        ensures
            r == self.exponent,
    {
        self.exponent
    }

    /// The exponent of the integer-to-real multiplier `2^-e`.
    pub fn inv_exponent(&self) -> (r: i32)
        requires
            self.exponent > i32::MIN,
        ensures
            r == -self.exponent,
    {
        -self.exponent
    }
}

/// `2^floor_log2_nat(n) <= n < 2^(floor_log2_nat(n) + 1)`.
pub proof fn lemma_floor_log2_brackets(n: nat)
    requires
        n >= 1,
    ensures
        pow2(floor_log2_nat(n)) <= n < pow2(floor_log2_nat(n) + 1),
    decreases n,
{
    lemma_floor_log2_pow(n);
    if n > 1 {
        lemma_floor_log2_brackets(n / 2);
        lemma_pow2_unfold(floor_log2_nat(n) + 1);
        lemma_pow2_unfold(floor_log2_nat(n));
    } else {
        lemma2_to64();
    }
}

/// The two multipliers of a scale are inverse: their exponents add up to zero, so their
/// product is exactly one. A zero magnitude gives the unit scale, both multipliers one.
/// Otherwise the magnitude, `significand * 2^b`, scales to `significand * 2^(b + e)`
/// with `2^29 <= significand * 2^(b + e) < 2^30`: the significand lies between `2^k` and
/// `2^(k + 1)` where `b + e + k == 29`.
pub proof fn lemma_scales_inverse(magnitude_bits: u64, s: GridScale)
    requires
        f64_is_finite_non_negative(magnitude_bits),
        f64_is_zero(magnitude_bits) ==> s.exponent == 0,
        !f64_is_zero(magnitude_bits) ==> s.exponent == ADAPTER_HEADROOM_BITS - f64_floor_log2(
            magnitude_bits,
        ),
    ensures
        s.exponent > i32::MIN,
        s.exponent + (-s.exponent) == 0,
        f64_is_zero(magnitude_bits) ==> s.is_unit(),
        !f64_is_zero(magnitude_bits) ==> ({
            let sig = f64_significand(magnitude_bits);
            let k = floor_log2_nat(sig as nat);
            &&& f64_binary_exponent(magnitude_bits) + s.exponent + k == ADAPTER_HEADROOM_BITS
            &&& pow2(k) <= sig < pow2(k + 1)
        }),
{
    if !f64_is_zero(magnitude_bits) {
        let sig = f64_significand(magnitude_bits);
        assert(0 < sig < 0x20_0000_0000_0000);
        lemma_floor_log2_bound(sig as nat);
        lemma_floor_log2_brackets(sig as nat);
    }
}

} // verus!
