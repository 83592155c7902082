use lox::num::Num;

#[test]
fn number_text_forms() {
    assert_eq!(Num::from_i64(0).unwrap().to_text(), "0");
    assert_eq!(Num::from_i64(-3).unwrap().to_text(), "-3");
    assert_eq!(Num::from_mantissa(1_500_000).to_text(), "1.5");
    assert_eq!(Num::from_mantissa(10).to_text(), "0.00001");
    assert_eq!(Num::from_mantissa(-123_456).to_text(), "-0.123456");
}

#[test]
fn arithmetic_is_exact_within_range() {
    let a = Num::from_mantissa(1_500_000);
    let b = Num::from_mantissa(2_500_000);
    assert_eq!(a.checked_add(b).unwrap(), Num::from_i64(4).unwrap());
    assert_eq!(b.checked_sub(a).unwrap(), Num::from_i64(1).unwrap());
    assert_eq!(a.checked_mul(b).unwrap(), Num::from_mantissa(3_750_000));
    assert_eq!(
        Num::from_i64(10).unwrap().checked_div(Num::from_i64(4).unwrap()).unwrap(),
        Num::from_mantissa(2_500_000)
    );
}

#[test]
fn multiplication_truncates_toward_zero() {
    // One millionth times one half truncates away the half-millionth.
    let tiny = Num::from_mantissa(1);
    let half = Num::from_mantissa(500_000);
    assert_eq!(tiny.checked_mul(half).unwrap(), Num::from_mantissa(0));
    let neg_tiny = Num::from_mantissa(-1);
    assert_eq!(neg_tiny.checked_mul(half).unwrap(), Num::from_mantissa(0));
}

#[test]
fn overflow_is_reported() {
    let max = Num::from_mantissa(i64::MAX);
    let one = Num::from_mantissa(1);
    assert!(max.checked_add(one).is_none());
    assert!(Num::from_mantissa(i64::MIN).checked_neg().is_none());
    assert!(Num::from_i64(i64::MAX).is_none());
}
