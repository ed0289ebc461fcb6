use scalper::decimal::{Decimal, MAX_MANTISSA, MAX_SCALE};

fn wide(mantissa: i128, scale: u32) -> Decimal {
    Decimal::try_from_i128_with_scale(mantissa, scale).unwrap()
}

#[test]
fn new_keeps_mantissa_and_scale() {
    let d = Decimal::new(3141, 3);
    assert_eq!(d.mantissa(), 3141);
    assert_eq!(d.scale(), 3);
}

#[test]
fn try_new_rejects_scale_over_limit() {
    assert!(Decimal::try_new(1, MAX_SCALE + 1).is_none());
    assert!(Decimal::try_new(1, MAX_SCALE).is_some());
}

#[test]
fn mantissa_holds_ninety_six_bits() {
    assert_eq!(MAX_MANTISSA, (1i128 << 96) - 1);
    assert!(Decimal::try_new(i64::MIN, 0).is_some());
    assert!(Decimal::try_new(i64::MAX, 28).is_some());
    assert!(Decimal::try_from_i128_with_scale(-MAX_MANTISSA, 0).is_some());
    assert!(Decimal::try_from_i128_with_scale(-MAX_MANTISSA - 1, 0).is_none());
}

#[test]
fn try_from_i128_rejects_wide_mantissa() {
    assert!(Decimal::try_from_i128_with_scale(MAX_MANTISSA + 1, 0).is_none());
    assert!(Decimal::try_from_i128_with_scale(MAX_MANTISSA, 0).is_some());
    let d = Decimal::try_from_i128_with_scale(-42, 2).unwrap();
    assert_eq!(d.mantissa(), -42);
    assert_eq!(d.scale(), 2);
}

#[test]
fn equality_goes_by_value_not_by_scale() {
    assert_eq!(Decimal::new(1, 0), Decimal::new(100, 2));
    assert_eq!(Decimal::new(20, 3), Decimal::new(2, 2));
    assert_ne!(Decimal::new(1, 0), Decimal::new(101, 2));
    assert!(Decimal::new(0, 5).is_zero());
    assert_eq!(Decimal::zero(), Decimal::new(0, 28));
}

#[test]
fn comparison_across_scales() {
    let a = Decimal::new(1097, 1);
    let b = Decimal::new(10978, 2);
    assert!(a.lt(&b));
    assert!(a.le(&b));
    assert!(b.gt(&a));
    assert!(b.ge(&a));
    assert!(!a.same(&b));
    assert_eq!(a.compare(&b), -1);
    assert_eq!(b.compare(&a), 1);
    assert_eq!(a.compare(&Decimal::new(109_700, 3)), 0);
}

#[test]
fn comparison_of_negative_numbers() {
    let a = Decimal::new(-5, 1);
    let b = Decimal::new(-49, 2);
    assert!(a.lt(&b));
    assert!(b.lt(&Decimal::zero()));
    assert!(!a.is_positive());
    assert!(Decimal::new(1, 28).is_positive());
}

#[test]
fn comparison_is_total_where_alignment_would_overflow() {
    let huge = wide(MAX_MANTISSA, 0);
    let tiny = Decimal::new(1, 28);
    assert!(tiny.lt(&huge));
    assert!(huge.gt(&tiny));
    let minus_huge = wide(-MAX_MANTISSA, 0);
    assert!(minus_huge.lt(&tiny));
    assert!(Decimal::new(-1, 28).gt(&minus_huge));
    assert_eq!(huge.compare(&wide(MAX_MANTISSA, 28)), 1);
}

#[test]
fn negation() {
    let d = Decimal::new(125, 2).neg();
    assert_eq!(d.mantissa(), -125);
    assert_eq!(d.scale(), 2);
    assert_eq!(d.neg(), Decimal::new(125, 2));
}

#[test]
fn checked_add_aligns_to_larger_scale() {
    let sum = Decimal::new(15, 1).checked_add(&Decimal::new(25, 2)).unwrap();
    assert_eq!(sum.mantissa(), 175);
    assert_eq!(sum.scale(), 2);
}

#[test]
fn checked_add_reports_overflow() {
    let big = wide(MAX_MANTISSA, 0);
    assert!(big.checked_add(&Decimal::one()).is_none());
    assert!(big.checked_add(&Decimal::new(1, 1)).is_none());
    assert!(big.checked_add(&Decimal::new(-1, 0)).is_some());
}

#[test]
fn checked_sub_is_exact() {
    let diff = Decimal::new(1, 0).checked_sub(&Decimal::new(2, 3)).unwrap();
    assert_eq!(diff.mantissa(), 998);
    assert_eq!(diff.scale(), 3);
    assert!(wide(-MAX_MANTISSA, 0).checked_sub(&Decimal::one()).is_none());
}

#[test]
fn checked_mul_adds_scales() {
    let product = Decimal::new(110, 0).checked_mul(&Decimal::new(998, 3)).unwrap();
    assert_eq!(product.mantissa(), 109_780);
    assert_eq!(product.scale(), 3);
    assert_eq!(product, Decimal::new(10978, 2));
}

#[test]
fn checked_mul_reports_scale_and_mantissa_overflow() {
    assert!(Decimal::new(1, 20).checked_mul(&Decimal::new(1, 9)).is_none());
    assert!(Decimal::new(1, 20).checked_mul(&Decimal::new(1, 8)).is_some());
    assert!(wide(MAX_MANTISSA, 0).checked_mul(&Decimal::new(2, 0)).is_none());
    assert!(wide(MAX_MANTISSA, 0).checked_mul(&wide(MAX_MANTISSA, 0)).is_none());
    assert!(Decimal::new(i64::MAX, 0).checked_mul(&Decimal::new(1 << 32, 0)).is_some());
}

#[test]
fn one_minus_and_one_plus() {
    let f = Decimal::new(2, 3).one_minus().unwrap();
    assert_eq!(f.mantissa(), 998);
    assert_eq!(f.scale(), 3);
    let g = Decimal::new(1, 3).one_plus().unwrap();
    assert_eq!(g.mantissa(), 1001);
    assert_eq!(g.scale(), 3);
    assert!(wide(MAX_MANTISSA, 28).one_plus().is_none());
    assert!(wide(-MAX_MANTISSA, 28).one_minus().is_none());
    assert!(Decimal::new(1, 28).one_plus().is_some());
}

#[test]
fn midpoint_of_even_sum_keeps_scale() {
    let mid = Decimal::new(1001, 1).midpoint(&Decimal::new(1003, 1)).unwrap();
    assert_eq!(mid.mantissa(), 1002);
    assert_eq!(mid.scale(), 1);
}

#[test]
fn midpoint_of_odd_sum_takes_one_more_place() {
    let mid = Decimal::new(1001, 1).midpoint(&Decimal::new(1002, 1)).unwrap();
    assert_eq!(mid.mantissa(), 10015);
    assert_eq!(mid.scale(), 2);
    let neg = Decimal::new(-1, 0).midpoint(&Decimal::new(-2, 0)).unwrap();
    assert_eq!(neg, Decimal::new(-15, 1));
}

#[test]
fn midpoint_reports_what_cannot_be_held() {
    assert!(Decimal::new(1, 28).midpoint(&Decimal::new(2, 28)).is_none());
    assert!(wide(MAX_MANTISSA, 0).midpoint(&wide(MAX_MANTISSA - 1, 0)).is_none());
    assert_eq!(
        wide(MAX_MANTISSA, 0).midpoint(&wide(MAX_MANTISSA, 0)).unwrap(),
        wide(MAX_MANTISSA, 0)
    );
    assert!(Decimal::new(2, 28).midpoint(&Decimal::new(4, 28)).is_some());
}

#[test]
fn products_of_full_width_are_compared_exactly() {
    use_products();
}

fn use_products() {
    let a = wide(MAX_MANTISSA, 0);
    let b = wide(MAX_MANTISSA - 1, 0);
    // a * b against b * a, and against a slightly larger product
    assert_eq!(scalper::decimal::compare_products(&a, &b, &b, &a), 0);
    assert_eq!(scalper::decimal::compare_products(&a, &a, &a, &b), 1);
    assert_eq!(scalper::decimal::compare_products(&a, &b, &a, &a), -1);
    // the same numbers at scales that differ by fifty-six places
    let fine = wide(MAX_MANTISSA, 28);
    assert_eq!(scalper::decimal::compare_products(&fine, &fine, &a, &a), -1);
    assert_eq!(scalper::decimal::compare_products(&a, &a, &fine, &fine), 1);
    // signs
    let minus = a.neg();
    assert_eq!(scalper::decimal::compare_products(&minus, &a, &a, &a), -1);
    assert_eq!(scalper::decimal::compare_products(&minus, &minus, &a, &a), 0);
    assert_eq!(scalper::decimal::compare_products(&minus, &a, &minus, &b), -1);
    assert_eq!(scalper::decimal::compare_products(&Decimal::zero(), &a, &minus, &b), 1);
    // 1.5 * 2 against 0.3 * 10
    let x = Decimal::new(15, 1);
    let y = Decimal::new(2, 0);
    let z = Decimal::new(3, 1);
    let w = Decimal::new(10, 0);
    assert_eq!(scalper::decimal::compare_products(&x, &y, &z, &w), 0);
}
