use i_float::fix_float::{FixConvert, FixMath, FIX_FRACTION_BITS, FIX_PI};

#[test]
fn fix_float_test_test_function_0() {
    assert_eq!(FIX_PI, 3217);
}

#[test]
fn fix_float_test_test_function_1() {
    assert_eq!(FIX_FRACTION_BITS, 10);
}

#[test]
fn fix_float_test_test_function_2() {
    let a = 1.fix();
    let b = 2.fix();
    let c = a + b;

    assert_eq!(c, 3.fix());
}

#[test]
fn test_function_3() {
    let a = 2.fix();
    let b = 1.fix();
    let c = a - b;

    assert_eq!(c, 1.fix());
}

#[test]
fn test_function_4() {
    let a = 5.sqrt();
    assert_eq!(a, 2);
}

#[test]
fn test_function_5() {
    let a = 9.sqrt();
    assert_eq!(a, 3);
}

#[test]
fn fix_mul_rounds_down() {
    assert_eq!(1536i64.fix_mul(2048), 3072);
    assert_eq!((-1i64).fix_mul(1), -1);
    assert_eq!(3i64.fix_mul(-1), -1);
    assert_eq!(1i64.fix_mul(1), 0);
}

#[test]
fn fix_div_rounds_down() {
    assert_eq!(3072i64.fix_div(2048), 1536);
    assert_eq!(1024i64.fix_div(3072), 341);
    assert_eq!((-1024i64).fix_div(3072), -342);
    assert_eq!(1024i64.fix_div(-3072), -342);
    assert_eq!((-1024i64).fix_div(-3072), 341);
    assert_eq!(1024i64.fix_div(3), 349_525);
}

#[test]
fn fix_sqr_and_normalizers() {
    assert_eq!(1536i64.fix_sqr(), 2304);
    assert_eq!(7i64.sqr(), 49);
    assert_eq!(2049i64.fix_normalize(), 2);
    assert_eq!((-1i64).fix_normalize(), -1);
    assert_eq!(3_145_728i64.fix_sqr_normalize(), 3);
    assert_eq!((-1i64).fix_sqr_normalize(), -1);
}

#[test]
fn sqrt_is_exact_floor() {
    assert_eq!(0i64.sqrt(), 0);
    assert_eq!(1i64.sqrt(), 1);
    assert_eq!(15i64.sqrt(), 3);
    assert_eq!(16i64.sqrt(), 4);
    assert_eq!(i64::MAX.sqrt(), 3_037_000_499);
    assert_eq!(((1i64 << 62) - 1).sqrt(), (1i64 << 31) - 1);
    assert_eq!((-4i64).sqrt(), 0);
    assert_eq!(4096i64.fix_sqrt(), 2048);
    assert_eq!((4i64 * 1024).fix_sqrt(), 2048);
}
