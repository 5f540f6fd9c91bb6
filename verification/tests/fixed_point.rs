use invaders::fixmath::atan2_mrad;
use invaders::fixmath::cos_mrad;
use invaders::fixmath::isqrt;
use invaders::fixmath::sin_mrad;
use invaders::fixmath::wrap_angle;

#[test]
fn isqrt_exact_values() {
    assert_eq!(isqrt(0), 0);
    assert_eq!(isqrt(1), 1);
    assert_eq!(isqrt(15), 3);
    assert_eq!(isqrt(16), 4);
    assert_eq!(isqrt(1_000_000), 1000);
    assert_eq!(isqrt(999_999), 999);
    let big: u128 = (1u128 << 83) - 1;
    let r = isqrt(big);
    assert!((r as u128) * (r as u128) <= big);
    assert!((r as u128 + 1) * (r as u128 + 1) > big);
}

#[test]
fn sin_cos_special_values() {
    assert_eq!(sin_mrad(0), 0);
    // the quadratic approximation reaches 999 of 1000 at the quarter turn
    assert_eq!(sin_mrad(1571), 999);
    assert_eq!(sin_mrad(3142), 0);
    assert_eq!(sin_mrad(-1571), -999);
    assert_eq!(cos_mrad(0), 999);
    assert_eq!(cos_mrad(3142), -999);
    for a in [-6283i64, -3142, -1571, 0, 777, 1571, 3142, 4713, 6283] {
        let s = sin_mrad(a);
        let c = cos_mrad(a);
        assert!(-1000 <= s && s <= 1000);
        assert!(-1000 <= c && c <= 1000);
    }
}

#[test]
fn atan2_quadrants() {
    assert_eq!(atan2_mrad(0, 5000), 0);
    assert_eq!(atan2_mrad(5000, 0), 1571);
    assert_eq!(atan2_mrad(0, -5000), 3142);
    assert_eq!(atan2_mrad(-5000, 0), -1571);
    assert_eq!(atan2_mrad(1000, 1000), 785);
    assert_eq!(atan2_mrad(-1000, 1000), -785);
    assert_eq!(atan2_mrad(0, 0), 0);
}

#[test]
fn wrap_angle_keeps_range() {
    assert_eq!(wrap_angle(6284), 0);
    assert_eq!(wrap_angle(-6284), 0);
    assert_eq!(wrap_angle(6300), 16);
    assert_eq!(wrap_angle(-6290), -6);
    assert_eq!(wrap_angle(123), 123);
}
