use i_float::fix_angle::{FixAngle, FixTrigonometry};
use i_float::fix_float::FIX_PI;

#[test]
fn trim_reduces_to_one_turn() {
    assert_eq!((-1i64).trim(), 1023);
    assert_eq!(1029i64.trim(), 5);
    assert_eq!(0i64.trim(), 0);
    assert_eq!((-1024i64).trim(), 0);
}

#[test]
fn angles_from_fixed_degrees() {
    assert_eq!(FixAngle::new_from_degrees_fix(90 * 1024), 256);
    assert_eq!(FixAngle::new_from_degrees_fix(360 * 1024), 1024);
    assert_eq!(FixAngle::new_from_degrees_fix(-1), -1);
}

#[test]
fn angles_from_fixed_radians() {
    assert_eq!(FixAngle::new_from_radians_fix(FIX_PI), 512);
    assert_eq!(FixAngle::new_from_radians_fix(-FIX_PI), -512);
    assert_eq!(FixAngle::new_from_radians_fix(1), 0);
    assert_eq!(FixAngle::new_from_radians_fix(-1), -1);
}
