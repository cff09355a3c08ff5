use i_float::bit_pack::{BitPackFix, BitPackVec};
use i_float::fix_float::{FIX_MAX, FIX_MIN};
use i_float::fix_vec::FixVec;
use i_float::grid::point::IntPoint;

#[test]
fn bit_pack_tests_test_0() {
    assert!(FixVec::new(0, 0).bit_pack() < FixVec::new(0, 1).bit_pack());
    assert!(FixVec::new(0, 0).bit_pack() > FixVec::new(0, -1).bit_pack());
}

#[test]
fn bit_pack_tests_test_1() {
    assert!(FixVec::new(0, 0).bit_pack() < FixVec::new(0, FIX_MAX).bit_pack());
    assert!(FixVec::new(0, 0).bit_pack() > FixVec::new(0, FIX_MIN).bit_pack());
}

#[test]
fn bit_pack_tests_test_2() {
    assert!(FixVec::new(FIX_MAX, 0).bit_pack() < FixVec::new(FIX_MAX, 1).bit_pack());
    assert!(FixVec::new(FIX_MAX, 0).bit_pack() > FixVec::new(FIX_MAX, -1).bit_pack());
}

#[test]
fn bit_pack_tests_test_3() {
    assert!(FixVec::new(FIX_MAX, 0).bit_pack() < FixVec::new(FIX_MAX, FIX_MAX).bit_pack());
    assert!(FixVec::new(FIX_MAX, 0).bit_pack() > FixVec::new(FIX_MAX, FIX_MIN).bit_pack());
}

#[test]
fn bit_pack_tests_test_4() {
    assert!(FixVec::new(FIX_MIN, 0).bit_pack() < FixVec::new(FIX_MIN, 1).bit_pack());

    let b0 = FixVec::new(FIX_MIN, 0).bit_pack();
    let b1 = FixVec::new(FIX_MIN, -1).bit_pack();

    assert!(b0 > b1)
}

#[test]
fn bit_pack_tests_test_5() {
    assert!(FixVec::new(FIX_MIN, 0).bit_pack() < FixVec::new(FIX_MIN, FIX_MAX).bit_pack());
    assert!(FixVec::new(FIX_MIN, 0).bit_pack() > FixVec::new(FIX_MIN, FIX_MIN).bit_pack());
}

#[test]
fn bit_pack_tests_test_6() {
    assert_eq!(FixVec::new(FIX_MAX, FIX_MAX).bit_pack(), u64::MAX);
    assert_eq!(FixVec::new(FIX_MIN, FIX_MIN).bit_pack(), 0);
}

#[test]
fn bit_pack_tests_test_7() {
    let p = FixVec::new(-10, 10);
    let b = p.bit_pack();
    let v = b.fix_vec();

    assert_eq!(p, v);
}

#[test]
fn bit_pack_tests_test_8() {
    let p = FixVec::new(10, -10);
    let b = p.bit_pack();
    let v = b.fix_vec();

    assert_eq!(p, v);
}

#[test]
fn bit_pack_tests_test_9() {
    assert_eq!(
        FixVec::new(FIX_MIN + 1, FIX_MIN + 1).bit_pack().fix_vec(),
        FixVec::new(FIX_MIN + 1, FIX_MIN + 1)
    );
    assert_eq!(
        FixVec::new(FIX_MAX - 1, FIX_MAX - 1).bit_pack().fix_vec(),
        FixVec::new(FIX_MAX - 1, FIX_MAX - 1)
    );
}

#[test]
fn bit_pack_tests_test_10() {
    for i in 1..32 {
        let v = (1i64 << i) - 1;
        let a = FixVec::new(v, -v);
        let b = FixVec::new(-v, v);
        assert_eq!(a.bit_pack().fix_vec(), a);
        assert_eq!(b.bit_pack().fix_vec(), b);
    }
}

#[test]
fn test_11() {
    let mut b = FixVec::new(FIX_MIN, FIX_MIN);
    for x in i8::MIN..=i8::MAX {
        for y in i8::MIN..=i8::MAX {
            let a = FixVec::new(x as i64, y as i64);
            assert!(b.bit_pack() < a.bit_pack());
            assert_eq!(a.bit_pack().fix_vec(), a);
            b = a;
        }
    }
}

#[test]
fn test_random() {
    // A fixed linear congruential sequence stands in for random coordinates.
    let mut state: u64 = 0x2545_f491_4f6c_dd1d;
    for _ in 0..100_000 {
        state = state.wrapping_mul(6364136223846793005).wrapping_add(1442695040888963407);
        let x = (state >> 32) as u32 as i32 as i64;
        let y = state as u32 as i32 as i64;
        let p = FixVec::new(x, y);
        let v = p.bit_pack().fix_vec();
        assert_eq!(p, v);
    }
}

#[test]
fn int_point_keys_match_vector_keys_and_order() {
    let points = [
        IntPoint::new(i32::MIN, i32::MIN),
        IntPoint::new(i32::MIN, 7),
        IntPoint::new(-1, i32::MAX),
        IntPoint::new(0, -1),
        IntPoint::new(0, 0),
        IntPoint::new(3, -100),
        IntPoint::new(i32::MAX, i32::MAX),
    ];
    for i in 0..points.len() {
        let p = points[i];
        let key = p.bit_pack();
        assert_eq!(key, FixVec::new_point(p).bit_pack());
        assert_eq!(key.x(), p.x as i64);
        assert_eq!(key.y(), p.y as i64);
        for j in 0..points.len() {
            let q = points[j];
            assert_eq!(key < q.bit_pack(), p < q);
            assert_eq!(key == q.bit_pack(), p == q);
        }
    }
}

#[test]
fn key_of_origin_is_the_biased_middle() {
    assert_eq!(IntPoint::new(0, 0).bit_pack(), 0x8000_0000_8000_0000);
    assert_eq!(IntPoint::new(-1, 0).bit_pack(), 0x7FFF_FFFF_8000_0000);
}
