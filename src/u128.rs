use std::cmp::Ordering;
use vstd::prelude::*;
use vstd::arithmetic::power2::{
    lemma2_to64, lemma_pow2_adds, lemma_pow2_pos, lemma_pow2_strictly_increases, pow2,
};
use vstd::bits::lemma_u64_shr_is_div;
use vstd::std_specs::bits::{axiom_u64_leading_zeros, u64_leading_zeros};

verus! {

/// The modulus of a 64-bit half.
pub open spec fn half_base() -> nat {
    0x1_0000_0000_0000_0000nat
}

/// An unsigned 128-bit number held as two 64-bit halves.
#[derive(Debug, Clone, Copy, PartialEq, Eq, Structural, Ord)]
pub struct UInt128 {
    pub high: u64,
    pub low: u64,
}

impl UInt128 {
    /// The number that the two halves stand for.
    pub open spec fn value(self) -> nat {
        self.high as nat * half_base() + self.low as nat
    }

    pub fn new(high: u64, low: u64) -> (r: Self)
        ensures
            r.high == high,
            r.low == low,
    {
        Self { high, low }
    }

    /// Adds three 64-bit numbers; returns the low 64 bits of the sum and the carry.
    fn sum(a: u64, b: u64, c: u64) -> (r: (u64, u64))
        ensures
            r.0 as nat + r.1 as nat * half_base() == a as nat + b as nat + c as nat,
            r.1 <= 2,
    {
        let s0 = a.wrapping_add(b);
        let mut high: u64 = if s0 < a { 1 } else { 0 };
        let s1 = s0.wrapping_add(c);
        if s1 < s0 {
            high += 1;
        }
        (s1, high)
    }

    /// The exact product of two 64-bit numbers.
    pub fn multiply(a: u64, b: u64) -> (r: Self)
        ensures
            r.value() == (a as nat) * (b as nat),
    {
        if a.leading_zeros() + b.leading_zeros() >= 64 {
            proof {
                lemma_fits_by_leading_zeros(a, b);
            }
            return Self::new(0, a * b);
        }
        let a1 = a >> 32;
        let a0 = a & 0xFFFF_FFFF;
        let b1 = b >> 32;
        let b0 = b & 0xFFFF_FFFF;
        proof {
            lemma_split_halves(a);
            lemma_split_halves(b);
            assert(a0 * b0 < half_base()) by (nonlinear_arith)
                requires a0 < 0x1_0000_0000, b0 < 0x1_0000_0000;
            assert(a0 * b1 < half_base()) by (nonlinear_arith)
                requires a0 < 0x1_0000_0000, b1 < 0x1_0000_0000;
            assert(a1 * b0 < half_base()) by (nonlinear_arith)
                requires a1 < 0x1_0000_0000, b0 < 0x1_0000_0000;
            assert(a1 * b1 < half_base()) by (nonlinear_arith)
                requires a1 < 0x1_0000_0000, b1 < 0x1_0000_0000;
        }
        let ab00 = a0 * b0;
        let (m_partial, m_high) = Self::sum(a0 * b1, a1 * b0, ab00 >> 32);
        proof {
            lemma_split_halves(ab00);
            lemma_split_halves(m_partial);
            assert(m_high << 32 == m_high * 0x1_0000_0000) by (bit_vector)
                requires m_high <= 2;
            let lo = (m_partial & 0xFFFF_FFFF) as int * 0x1_0000_0000 + (ab00 & 0xFFFF_FFFF) as int;
            let hi = a1 * b1 + (m_partial >> 32) + m_high * 0x1_0000_0000;
            assert((a as int) * (b as int) == hi * half_base() + lo) by (nonlinear_arith)
                requires
                    a == a1 * 0x1_0000_0000 + a0,
                    b == b1 * 0x1_0000_0000 + b0,
                    ab00 == a0 * b0,
                    ab00 == (ab00 >> 32) * 0x1_0000_0000 + (ab00 & 0xFFFF_FFFF),
                    m_partial == (m_partial >> 32) * 0x1_0000_0000 + (m_partial & 0xFFFF_FFFF),
                    m_partial + m_high * half_base() == a0 * b1 + a1 * b0 + (ab00 >> 32),
                    lo == (m_partial & 0xFFFF_FFFF) as int * 0x1_0000_0000 + (ab00 & 0xFFFF_FFFF) as int,
                    hi == a1 * b1 + (m_partial >> 32) + m_high * 0x1_0000_0000,
                    half_base() == 0x1_0000_0000 * 0x1_0000_0000;
            assert(0 <= lo < half_base());
            assert((a as int) * (b as int) <= (half_base() - 1) * (half_base() - 1)) by (nonlinear_arith)
                requires a < half_base(), b < half_base();
            assert(hi < half_base()) by (nonlinear_arith)
                requires
                    (a as int) * (b as int) == hi * half_base() + lo,
                    0 <= lo,
                    (a as int) * (b as int) <= (half_base() - 1) * (half_base() - 1),
                    half_base() > 1;
        }
        let high = a1 * b1 + (m_partial >> 32) + (m_high << 32);
        let low = (m_partial << 32) | (ab00 & 0xFFFF_FFFF);
        proof {
            assert((m_partial << 32) | (ab00 & 0xFFFF_FFFF) == (m_partial & 0xFFFF_FFFF) * 0x1_0000_0000
                + (ab00 & 0xFFFF_FFFF)) by (bit_vector);
        }
        Self::new(high, low)
    }
}

/// Ordered by the numbers they stand for: high halves first, then low halves.
impl PartialOrd for UInt128 {
    fn partial_cmp(&self, other: &Self) -> (r: Option<Ordering>) {
        proof {
            lemma_value_order(*self, *other);
        }
        if self.high < other.high {
            Some(Ordering::Less)
        } else if self.high > other.high {
            Some(Ordering::Greater)
        } else if self.low < other.low {
            Some(Ordering::Less)
        } else if self.low > other.low {
            Some(Ordering::Greater)
        } else {
            Some(Ordering::Equal)
        }
    }
}

impl vstd::std_specs::cmp::PartialOrdSpecImpl for UInt128 {
    open spec fn obeys_partial_cmp_spec() -> bool {
        true
    }

    open spec fn partial_cmp_spec(&self, other: &Self) -> Option<Ordering> {
        if self.value() < other.value() {
            Some(Ordering::Less)
        } else if self.value() == other.value() {
            Some(Ordering::Equal)
        } else {
            Some(Ordering::Greater)
        }
    }
}

/// Comparing the values is comparing the high halves, then the low halves.
pub proof fn lemma_value_order(a: UInt128, b: UInt128)
    ensures
        a.value() < b.value() <==> (a.high < b.high || (a.high == b.high && a.low < b.low)),
        a.value() == b.value() <==> a == b,
{
    if a.high < b.high {
        assert(a.high as nat * half_base() + half_base() <= b.high as nat * half_base())
            by (nonlinear_arith)
            requires a.high < b.high;
    } else if a.high > b.high {
        assert(b.high as nat * half_base() + half_base() <= a.high as nat * half_base())
            by (nonlinear_arith)
            requires b.high < a.high;
    }
}

/// A 64-bit number is its high 32 bits times 2^32 plus its low 32 bits.
proof fn lemma_split_halves(x: u64)
    ensures
        x >> 32 < 0x1_0000_0000,
        x & 0xFFFF_FFFF < 0x1_0000_0000,
        x as int == (x >> 32) as int * 0x1_0000_0000 + (x & 0xFFFF_FFFF) as int,
{
    assert(x >> 32 < 0x1_0000_0000) by (bit_vector);
    assert(x & 0xFFFF_FFFF < 0x1_0000_0000) by (bit_vector);
    assert(x == (x >> 32) * 0x1_0000_0000 + (x & 0xFFFF_FFFF)) by (bit_vector);
}

/// When the leading zeros of two numbers add up to at least 64, their product fits in 64 bits.
proof fn lemma_fits_by_leading_zeros(a: u64, b: u64)
    requires
        u64_leading_zeros(a) + u64_leading_zeros(b) >= 64,
    ensures
        (a as nat) * (b as nat) < half_base(),
{
    axiom_u64_leading_zeros(a);
    axiom_u64_leading_zeros(b);
    if a == 0 || b == 0 {
        assert((a as nat) * (b as nat) == 0) by (nonlinear_arith)
            requires a == 0 || b == 0;
    } else {
        let ka = (64 - u64_leading_zeros(a)) as nat;
        let kb = (64 - u64_leading_zeros(b)) as nat;
        assert(0 < ka < 64 && 0 < kb < 64 && ka + kb <= 64);
        assert(vstd::prelude::sub(64u64, u64_leading_zeros(a) as u64) == ka);
        assert(vstd::prelude::sub(64u64, u64_leading_zeros(b) as u64) == kb);
        lemma_u64_shr_is_div(a, ka as u64);
        lemma_u64_shr_is_div(b, kb as u64);
        lemma_pow2_pos(ka);
        lemma_pow2_pos(kb);
        assert(a < pow2(ka)) by (nonlinear_arith)
            requires a as nat / pow2(ka) == 0, pow2(ka) > 0;
        assert(b < pow2(kb)) by (nonlinear_arith)
            requires b as nat / pow2(kb) == 0, pow2(kb) > 0;
        lemma_pow2_adds(ka, kb);
        assert((a as nat) * (b as nat) < pow2(ka) * pow2(kb)) by (nonlinear_arith)
            requires a < pow2(ka), b < pow2(kb);
        if ka + kb < 64 {
            lemma_pow2_strictly_increases(ka + kb, 64);
        }
        lemma2_to64();
    }
}

} // verus!
