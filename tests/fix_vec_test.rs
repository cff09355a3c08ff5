use i_float::fix_float::{FixConvert, FIX_UNIT};
use i_float::fix_vec::FixVec;
use i_float::grid::point::IntPoint;

#[test]
fn fix_vec_test_test_function_0() {
    let a = FixVec::new_number(1, 1);
    let b = FixVec::new_number(1, -1);
    let c = a + b;

    assert_eq!(c, FixVec::new_number(2, 0));
}

#[test]
fn fix_vec_test_test_function_1() {
    let a = FixVec::new_number(3, 4);

    assert_eq!(a.sqr_length(), 25 * FIX_UNIT * FIX_UNIT);
    assert_eq!(a.fix_sqr_length(), 25.fix());
}

#[test]
fn fix_vec_test_test_function_2() {
    let a = FixVec::new_number(3, 4);

    assert_eq!(a.length(), 5.fix());
    assert_eq!(a.fix_length(), 5.fix());
}

#[test]
fn safe_normalize_of_zero_gives_the_default() {
    let zero = FixVec::new(0, 0);
    assert_eq!(zero.fix_safe_normalize(), FixVec::new(0, 1024));
    assert_eq!(zero.fix_normalize_with_def_value(FixVec::new_number(0, 1)), FixVec::new(0, 1024));
    assert_eq!(zero.fix_normalize_with_def_value(FixVec::new(7, -7)), FixVec::new(7, -7));
}

#[test]
fn normalize_gives_unit_length_within_one_unit() {
    let v = FixVec::new_number(3, 4);
    let n = v.fix_normalize();
    assert_eq!(n, FixVec::new(614, 819));
    assert_eq!(v.fix_safe_normalize(), n);
    assert!((n.length() - FIX_UNIT).abs() <= 1);
    let w = FixVec::new(-5000, 12000).fix_normalize();
    assert_eq!(w, FixVec::new(-394, 945));
    assert!((w.length() - FIX_UNIT).abs() <= 1);
}

#[test]
fn integer_products() {
    let a = FixVec::new(3, -2);
    let b = FixVec::new(5, 7);
    assert_eq!(a.dot_product(b), 1);
    assert_eq!(a.cross_product(b), 31);
    assert_eq!(b.cross_product(a), -31);
    assert_eq!(a.sqr_distance(b), 4 + 81);
}

#[test]
fn fixed_point_products_round_down() {
    let a = FixVec::new_number(2, 3);
    let b = FixVec::new(512, -512);
    assert_eq!(a.fix_dot_product(b), 1024 - 1536);
    assert_eq!(a.fix_cross_product(b), -1024 - 1536);
    assert_eq!(FixVec::new(1, 1).fix_dot_product(FixVec::new(1, 1)), 0);
    assert_eq!(FixVec::new(-1, 0).fix_dot_product(FixVec::new(1, 0)), -1);
    assert_eq!(FixVec::new(2048, 1024).fix_cross_product_scalar(1024), FixVec::new(-1024, 2048));
}

#[test]
fn distances() {
    let a = FixVec::new_number(1, 1);
    let b = FixVec::new_number(4, 5);
    assert_eq!(a.fix_sqr_distance(b), 25 * 1024);
    assert_eq!(a.fix_distance(b), 5 * 1024);
    assert_eq!(FixVec::new(3072, 4096).fix_distance(FixVec::new(0, 0)), 5120);
    assert_eq!(FixVec::new(0, 0).fix_distance(FixVec::new(-5, 0)), 5);
}

#[test]
fn half_and_middle_round_down() {
    assert_eq!(FixVec::new(7, -3).half(), FixVec::new(3, -2));
    assert_eq!(FixVec::new(1, 1).middle(FixVec::new(4, -4)), FixVec::new(2, -2));
}

#[test]
fn operators_and_constructors() {
    assert_eq!(FixVec::new(1, 2) - FixVec::new(5, -5), FixVec::new(-4, 7));
    assert_eq!(FixVec::new(1, -2) * 3, FixVec::new(3, -6));
    assert_eq!(FixVec::new_point(IntPoint::new(-9, 4)), FixVec::new(-9, 4));
    assert!(FixVec::new(0, 0).is_zero());
    assert!(!FixVec::new(0, 1).is_zero());
}

#[test]
fn int_point_arithmetic() {
    let a = IntPoint::new(3, -2);
    let b = IntPoint::new(5, 7);
    assert_eq!(a.cross_product(b), 31);
    assert_eq!(a.dot_product(b), 1);
    assert_eq!(a.subtract(b), FixVec::new(-2, -9));
    assert_eq!(a.sqr_length(), 13);
    assert_eq!(a.sqr_distance(b), 85);
    assert_eq!(a + b, IntPoint::new(8, 5));
    assert_eq!(a - b, IntPoint::new(-2, -9));
    let far = IntPoint::new(i32::MIN, i32::MIN);
    assert_eq!(far.cross_product(IntPoint::new(i32::MAX, i32::MIN)), i64::MAX - (1i64 << 31) + 1);
    assert_eq!(IntPoint::new(i32::MAX, 0).sqr_distance(IntPoint::new(-1, 0)), 1i64 << 62);
}

#[test]
fn int_point_from_vector_keeps_low_bits() {
    assert_eq!(IntPoint::new_fix_vec(FixVec::new(-5, 6)), IntPoint::new(-5, 6));
    assert_eq!(IntPoint::new_fix_vec(FixVec::new((1i64 << 32) + 5, -1)), IntPoint::new(5, -1));
}

#[test]
fn int_points_order_by_x_then_y() {
    let a = IntPoint::new(1, 9);
    let b = IntPoint::new(2, -9);
    let c = IntPoint::new(2, 0);
    assert!(a < b);
    assert!(b < c);
    assert!(c > a);
    assert_eq!(a.partial_cmp(&a), Some(std::cmp::Ordering::Equal));
    let mut v = vec![c, a, b];
    v.sort();
    assert_eq!(v, vec![a, b, c]);
}

#[test]
fn length_beyond_64_bit_squares() {
    assert_eq!(FixVec::new(3_000_000_000_000_000_000, -4_000_000_000_000_000_000).length(), 5_000_000_000_000_000_000);
    assert_eq!(FixVec::new(1i64 << 62, 1i64 << 62).length(), 6_521_908_912_666_391_106);
    assert_eq!(FixVec::new(i64::MIN + 1, 0).length(), i64::MAX);
    assert_eq!(FixVec::new(0, -7).length(), 7);
    let big = FixVec::new(3i64 << 20, 4i64 << 20);
    assert_eq!(big.fix_normalize(), FixVec::new(614, 819));
}

#[test]
fn normalize_of_long_vectors_keeps_unit_length() {
    assert_eq!(FixVec::new(2147483647, 0).fix_normalize(), FixVec::new(1024, 0));
    assert_eq!(FixVec::new(0, -(1i64 << 50)).fix_normalize(), FixVec::new(0, -1024));
    let n = FixVec::new(1i64 << 61, 1i64 << 61).fix_normalize();
    assert_eq!(n, FixVec::new(724, 724));
    let sq = n.sqr_length();
    assert!(1021 * 1021 <= sq && sq <= 1027 * 1027);
}
