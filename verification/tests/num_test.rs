use oxidyn::{Num, SCALE};

#[test]
fn test_from_int_scales() {
    assert_eq!(Num::from_int(0).raw, 0);
    assert_eq!(Num::from_int(1).raw, SCALE);
    assert_eq!(Num::from_int(-3).raw, -3 * SCALE);
}

#[test]
fn test_from_ratio_truncates_toward_zero() {
    assert_eq!(Num::from_ratio(1, 2).raw, 500_000);
    assert_eq!(Num::from_ratio(2, 100).raw, 20_000);
    assert_eq!(Num::from_ratio(1, 60).raw, 16_666);
    assert_eq!(Num::from_ratio(-1, 60).raw, -16_666);
    assert_eq!(Num::from_ratio(1, -60).raw, -16_666);
    assert_eq!(Num::from_ratio(-1, -60).raw, 16_666);
}

#[test]
fn test_saturating_add_and_sub() {
    let a = Num::from_int(2);
    let b = Num::from_int(3);
    assert_eq!(a.saturating_add(b), Num::from_int(5));
    assert_eq!(a.saturating_sub(b), Num::from_int(-1));

    let top = Num { raw: i64::MAX };
    assert_eq!(top.saturating_add(Num::from_int(1)).raw, i64::MAX);
    let bottom = Num { raw: i64::MIN };
    assert_eq!(bottom.saturating_sub(Num::from_int(1)).raw, i64::MIN);
}

#[test]
fn test_scaled_mul_exact_and_rounded() {
    assert_eq!(
        Num::from_ratio(1, 2).scaled_mul(Num::from_int(10)),
        Num::from_int(5)
    );
    assert_eq!(
        Num::from_int(-4).scaled_mul(Num::from_int(3)),
        Num::from_int(-12)
    );
    // 1/3 (truncated to 0.333333) times 3 rounds toward zero: 0.999999
    assert_eq!(
        Num::from_ratio(1, 3).scaled_mul(Num::from_int(3)).raw,
        999_999
    );
    // saturation at the top of the range
    let top = Num { raw: i64::MAX };
    assert_eq!(top.scaled_mul(top).raw, i64::MAX);
}

#[test]
fn test_from_int_saturates() {
    assert_eq!(Num::from_int(i64::MAX).raw, i64::MAX);
    assert_eq!(Num::from_int(i64::MIN).raw, i64::MIN);
}
