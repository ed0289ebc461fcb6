use scalper::decimal::{Decimal, MAX_MANTISSA};
use scalper::precision::{
    normalize_price, normalize_quantity, try_normalize_price, try_normalize_quantity,
};

#[test]
fn quantity_rounds_down_to_step() {
    let amount = Decimal::new(10_999, 3);
    let step = Decimal::new(10, 1);
    let got = normalize_quantity(amount, step);
    assert_eq!(got, Decimal::new(10, 0));
    assert_eq!(got.scale(), 1);
    assert_eq!(got.mantissa(), 100);
}

#[test]
fn price_rounds_to_nearest_tick() {
    let price = Decimal::new(10_016, 2);
    let tick = Decimal::new(1, 1);
    assert_eq!(normalize_price(price, tick), Decimal::new(1_002, 1));
    assert_eq!(normalize_price(Decimal::new(10_014, 2), tick), Decimal::new(1_001, 1));
}

#[test]
fn tiny_quantity_rounds_to_zero() {
    let raw = Decimal::new(2, 4);
    let step = Decimal::new(1, 3);
    let got = try_normalize_quantity(raw, step).unwrap();
    assert!(got.is_zero());
    assert_eq!(got.scale(), 3);
}

#[test]
fn quantity_on_the_grid_is_kept() {
    let got = normalize_quantity(Decimal::new(2, 2), Decimal::new(1, 3));
    assert_eq!(got.mantissa(), 20);
    assert_eq!(got.scale(), 3);
}

#[test]
fn zero_step_returns_amount_unchanged() {
    let amount = Decimal::new(12_345, 4);
    let got = normalize_quantity(amount, Decimal::zero());
    assert_eq!(got.mantissa(), 12_345);
    assert_eq!(got.scale(), 4);
    let price = normalize_price(amount, Decimal::new(0, 3));
    assert_eq!(price.mantissa(), 12_345);
    assert_eq!(price.scale(), 4);
}

#[test]
fn quantity_normalization_is_idempotent() {
    let step = Decimal::new(3, 3);
    for m in [0i64, 1, 2, 3, 4, 299, 300, 301, 123_456_789] {
        let x = Decimal::new(m, 4);
        let once = normalize_quantity(x, step);
        let twice = normalize_quantity(once, step);
        assert_eq!(once, twice);
    }
}

#[test]
fn quantity_normalization_never_rounds_up() {
    let step = Decimal::new(7, 2);
    for m in [0i64, 1, 69, 70, 71, 139, 140, 999_999] {
        let x = Decimal::new(m, 3);
        let got = normalize_quantity(x, step);
        assert!(got.le(&x));
        let gap = x.checked_sub(&got).unwrap();
        assert!(gap.lt(&step));
    }
}

#[test]
fn negative_quantity_rounds_toward_minus_infinity() {
    let got = normalize_quantity(Decimal::new(-25, 1), Decimal::new(1, 0));
    assert_eq!(got, Decimal::new(-3, 0));
}

#[test]
fn price_normalization_stays_within_half_a_tick() {
    let tick = Decimal::new(5, 2);
    for m in [0i64, 1, 24, 25, 26, 49, 50, 74, 75, 76, 5_004_999] {
        let p = Decimal::new(m, 3);
        let got = normalize_price(p, tick);
        let off = if got.ge(&p) { got.checked_sub(&p).unwrap() } else { p.checked_sub(&got).unwrap() };
        let twice = off.checked_add(&off).unwrap();
        assert!(twice.le(&tick));
    }
}

#[test]
fn price_ties_go_to_the_even_multiple() {
    let one = Decimal::new(1, 0);
    assert_eq!(normalize_price(Decimal::new(65, 1), one), Decimal::new(6, 0));
    assert_eq!(normalize_price(Decimal::new(75, 1), one), Decimal::new(8, 0));
    assert_eq!(normalize_price(Decimal::new(-65, 1), one), Decimal::new(-6, 0));
    assert_eq!(normalize_price(Decimal::new(-75, 1), one), Decimal::new(-8, 0));
    let tick = Decimal::new(1, 1);
    assert_eq!(normalize_price(Decimal::new(10_005, 2), tick), Decimal::new(1_000, 1));
    assert_eq!(normalize_price(Decimal::new(10_015, 2), tick), Decimal::new(1_002, 1));
}

#[test]
fn price_normalization_is_idempotent() {
    let tick = Decimal::new(1, 1);
    let once = normalize_price(Decimal::new(5_005_004_999, 5), tick);
    assert_eq!(normalize_price(once, tick), once);
    assert_eq!(once, Decimal::new(500_500, 1));
}

#[test]
fn results_that_cannot_be_held_are_reported() {
    let amount = Decimal::try_from_i128_with_scale(MAX_MANTISSA, 0).unwrap();
    assert!(try_normalize_quantity(amount, Decimal::new(3, 3)).is_none());
    assert!(try_normalize_price(amount, Decimal::new(3, 3)).is_none());
    assert!(try_normalize_quantity(amount, Decimal::new(3, 0)).is_some());
}
