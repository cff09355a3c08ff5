use vstd::prelude::*;
use crate::fix_float::{div_floor, floor_div, in_i64, FixFloat, FIX_PI};

verus! {

/// An angle in 1024ths of a full turn.
pub type FixAngle = i64;

pub const FIX_ANGLE_INDEX_MASK: i64 = 255;
pub const FIX_ANGLE_FULL_ROUND_MASK: i64 = 1023;

/// Construction of angles from fixed-point radians and degrees, and reduction to one turn.
pub trait FixTrigonometry: Sized {
    /// The angle in 1024ths of a turn.
    spec fn turn_units(self) -> int;

    /// The angle of `radians` (a fixed-point number), rounded down.
    fn new_from_radians_fix(radians: FixFloat) -> (r: Self)
        requires
            in_i64(radians * 512),
        ensures
            r.turn_units() == floor_div(radians * 512, FIX_PI as int),
    ;

    /// The angle of `degrees` (a fixed-point number), rounded down.
    fn new_from_degrees_fix(degrees: FixFloat) -> (r: Self)
        ensures
            r.turn_units() == floor_div(degrees as int, 360),
    ;

    /// The same angle within one turn: a value in `0..1024`.
    fn trim(&self) -> (r: i64)
        ensures
            r == self.turn_units() % 1024,
            0 <= r < 1024,
    ;
}

impl FixTrigonometry for FixAngle {
    open spec fn turn_units(self) -> int {
        self as int
    }

    fn new_from_radians_fix(radians: FixFloat) -> (r: Self) {
        proof {
            assert(floor_div(radians * 512, FIX_PI as int) == (radians * 512) / 3217);
            assert(in_i64((radians * 512) / 3217)) by (nonlinear_arith)
                requires in_i64(radians * 512);
        }
        div_floor(radians * 512, FIX_PI)
    }

    fn new_from_degrees_fix(degrees: FixFloat) -> (r: Self) {
        proof {
            assert(in_i64(degrees / 360)) by (nonlinear_arith)
                requires in_i64(degrees as int);
        }
        div_floor(degrees, 360)
    }

    fn trim(&self) -> (r: i64) {
        let a = *self;
        assert(a & 1023 == a % 1024) by (bit_vector);
        a & FIX_ANGLE_FULL_ROUND_MASK
    }
}

} // verus!
