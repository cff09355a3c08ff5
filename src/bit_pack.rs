use vstd::prelude::*;
use crate::fix_float::in_i32;
use crate::fix_vec::FixVec;
use crate::grid::point::{lex_less, IntPoint};

verus! {

/// A point packed into one 64-bit key whose order is the order of the points by x, then y.
pub type BitPack = u64;

/// The bias that moves the signed 32-bit range onto the unsigned one.
const FIX_MID: i64 = 2147483648;
const Y_MASK: u64 = 4294967295;

/// The key of the point `(x, y)`: the biased x in the high 32 bits, the biased y in the low ones.
pub open spec fn pack_key(x: int, y: int) -> int {
    (x + 0x8000_0000) * 0x1_0000_0000 + (y + 0x8000_0000)
}

/// The x coordinate held in a key.
pub open spec fn key_x_of(key: int) -> int {
    key / 0x1_0000_0000 - 0x8000_0000
}

/// The y coordinate held in a key.
pub open spec fn key_y_of(key: int) -> int {
    key % 0x1_0000_0000 - 0x8000_0000
}

/// Packing a point into a key.
pub trait BitPackVec {
    /// The x coordinate that is packed.
    spec fn key_x(&self) -> int;

    /// The y coordinate that is packed.
    spec fn key_y(&self) -> int;

    fn bit_pack(&self) -> (r: BitPack)
        requires
            in_i32(self.key_x()),
            in_i32(self.key_y()),
        ensures
            r == pack_key(self.key_x(), self.key_y()),
    ;
}

/// Unpacking a key into its point.
pub trait BitPackFix {
    /// The key as a number.
    spec fn key(&self) -> int;

    fn fix_vec(&self) -> (r: FixVec)
        ensures
            r.x == key_x_of(self.key()),
            r.y == key_y_of(self.key()),
    ;

    fn x(&self) -> (r: i64)
        ensures
            r == key_x_of(self.key()),
    ;

    fn y(&self) -> (r: i64)
        ensures
            r == key_y_of(self.key()),
    ;
}

/// Two biased 32-bit halves joined into one 64-bit number.
fn join_halves(hi: i64, lo: i64) -> (r: u64)
    requires
        0 <= hi < 0x1_0000_0000,
        0 <= lo < 0x1_0000_0000,
    ensures
        r == hi * 0x1_0000_0000 + lo,
{
    let xx = (hi as u64) << 32;
    let yy = lo as u64;
    let h = hi as u64;
    let l = lo as u64;
    assert((h << 32) | l == h * 0x1_0000_0000 + l) by (bit_vector)
        requires h < 0x1_0000_0000, l < 0x1_0000_0000;
    xx | yy
}

impl BitPackVec for FixVec {
    open spec fn key_x(&self) -> int {
        self.x as int
    }

    open spec fn key_y(&self) -> int {
        self.y as int
    }

    fn bit_pack(&self) -> (r: BitPack) {
        join_halves(self.x + FIX_MID, self.y + FIX_MID)
    }
}

impl BitPackVec for IntPoint {
    open spec fn key_x(&self) -> int {
        self.x as int
    }

    open spec fn key_y(&self) -> int {
        self.y as int
    }

    fn bit_pack(&self) -> (r: BitPack) {
        join_halves((self.x as i64) + FIX_MID, (self.y as i64) + FIX_MID)
    }
}

impl BitPackFix for BitPack {
    open spec fn key(&self) -> int {
        *self as int
    }

    fn fix_vec(&self) -> (r: FixVec) {
        FixVec::new(self.x(), self.y())
    }

    fn x(&self) -> (r: i64) {
        let k = *self;
        assert(k >> 32 == k / 0x1_0000_0000) by (bit_vector);
        assert(k >> 32 < 0x1_0000_0000) by (bit_vector);
        (k >> 32) as i64 - FIX_MID
    }

    fn y(&self) -> (r: i64) {
        let k = *self;
        assert(k & Y_MASK == k % 0x1_0000_0000) by (bit_vector);
        assert(k & Y_MASK < 0x1_0000_0000) by (bit_vector);
        (k & Y_MASK) as i64 - FIX_MID
    }
}

/// Keys are ordered as their points are, by x and then y, and a key gives back its point.
pub proof fn lemma_bit_key_order(ax: int, ay: int, bx: int, by: int)
    requires
        in_i32(ax),
        in_i32(ay),
        in_i32(bx),
        in_i32(by),
    ensures
        pack_key(ax, ay) < pack_key(bx, by) <==> lex_less(ax, ay, bx, by),
        pack_key(ax, ay) == pack_key(bx, by) <==> (ax == bx && ay == by),
        key_x_of(pack_key(ax, ay)) == ax,
        key_y_of(pack_key(ax, ay)) == ay,
        0 <= pack_key(ax, ay) <= u64::MAX,
{
    let (ha, la, hb, lb) = (ax + 0x8000_0000, ay + 0x8000_0000, bx + 0x8000_0000, by + 0x8000_0000);
    if ha < hb {
        assert(ha * 0x1_0000_0000 + la < hb * 0x1_0000_0000 + lb) by (nonlinear_arith)
            requires ha + 1 <= hb, 0 <= la < 0x1_0000_0000, 0 <= lb;
    } else if hb < ha {
        assert(hb * 0x1_0000_0000 + lb < ha * 0x1_0000_0000 + la) by (nonlinear_arith)
            requires hb + 1 <= ha, 0 <= lb < 0x1_0000_0000, 0 <= la;
    }
    vstd::arithmetic::div_mod::lemma_fundamental_div_mod_converse(
        pack_key(ax, ay),
        0x1_0000_0000,
        ha,
        la,
    );
    assert(0 <= pack_key(ax, ay) <= u64::MAX) by (nonlinear_arith)
        requires
            pack_key(ax, ay) == ha * 0x1_0000_0000 + la,
            0 <= ha < 0x1_0000_0000,
            0 <= la < 0x1_0000_0000;
}

} // verus!
