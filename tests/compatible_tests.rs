use i_float::float::compatible::FloatPointCompatible;

#[test]
fn compatible_test_0() {
    let a0 = [2.0, 5.0];
    let x = a0.x();
    let y = a0.y();
    let a1 = <[f64; 2]>::from_xy(x, y);

    assert_eq!(a0, a1);
}

#[test]
fn integer_pairs_are_points_too() {
    let p = <[i32; 2]>::from_xy(-3, 8);
    assert_eq!(p, [-3, 8]);
    assert_eq!(p.x(), -3);
    assert_eq!(p.y(), 8);
}
