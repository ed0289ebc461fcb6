use scalper::config::StrategyConfig;
use scalper::decimal::{Decimal, MAX_MANTISSA};
use scalper::strategy::{
    default_hard_stop_pct, default_trailing_callback, IndicatorSnapshot, RsiBollingerStrategy,
    Thresholds, TickStep, DEFAULT_WARMUP,
};
use scalper::types::{Position, Side, Signal, Ticker};

fn dec(mantissa: i64, scale: u32) -> Decimal {
    Decimal::new(mantissa, scale)
}

fn config() -> StrategyConfig {
    StrategyConfig {
        rsi_period: 14,
        obi_threshold: dec(2, 1),
        bb_period: 20,
        bb_std_dev: dec(2, 0),
        min_volatility: dec(3, 3),
    }
}

fn tick(timestamp: u64, price: Decimal, bid_qty: Decimal, ask_qty: Decimal) -> Ticker {
    Ticker {
        symbol: "BTCUSDT".to_string(),
        price,
        bid_price: price,
        ask_price: price,
        bid_qty,
        ask_qty,
        timestamp,
    }
}

fn plain_tick(price: Decimal) -> Ticker {
    tick(1_000, price, dec(1, 0), dec(1, 0))
}

fn indicators(rsi: Decimal, bb_lower: Decimal, atr: Decimal) -> IndicatorSnapshot {
    IndicatorSnapshot { rsi, bb_lower, bb_mid: bb_lower, bb_upper: bb_lower, atr }
}

fn warm(position: Option<Position>, ind: IndicatorSnapshot) -> RsiBollingerStrategy {
    let mut s = RsiBollingerStrategy::new("BTCUSDT".to_string(), config()).unwrap();
    s.processed_candles = DEFAULT_WARMUP;
    s.indicators = Some(ind);
    s.position = position;
    s
}

fn position(entry: Decimal, highest: Decimal) -> Position {
    Position {
        symbol: "BTCUSDT".to_string(),
        quantity: dec(20, 3),
        entry_price: entry,
        unrealized_pnl: Decimal::zero(),
        highest_price: highest,
    }
}

fn entry_indicators() -> IndicatorSnapshot {
    indicators(dec(25, 0), dec(100, 0), dec(1, 0))
}

#[test]
fn new_strategy_is_flat_and_cold() {
    let s = RsiBollingerStrategy::new("ETHUSDT".to_string(), config()).unwrap();
    assert_eq!(s.symbol, "ETHUSDT");
    assert!(s.position.is_none());
    assert!(s.indicators.is_none());
    assert!(s.current_candle.is_none());
    assert_eq!(s.processed_candles, 0);
    assert_eq!(s.warmup_period, 50);
    assert_eq!(s.thresholds.get_obi_threshold(), dec(2, 1));
    assert_eq!(s.thresholds.get_min_volatility(), dec(3, 3));
    assert_eq!(s.thresholds.get_trailing_callback(), dec(2, 3));
    assert_eq!(s.thresholds.get_hard_stop_pct(), dec(1, 2));
    assert_eq!(s.name(), "Fut_OBI_Scalper");
}

#[test]
fn defaults_are_two_per_mille_and_one_per_cent() {
    assert_eq!(default_trailing_callback(), dec(2, 3));
    assert_eq!(default_hard_stop_pct(), dec(1, 2));
}

#[test]
fn thresholds_whose_factors_cannot_be_held_are_refused() {
    let most = Decimal::try_from_i128_with_scale(MAX_MANTISSA, 28).unwrap();
    assert!(Thresholds::new(most, dec(3, 3), dec(2, 3), dec(1, 2)).is_none());
    assert!(Thresholds::new(dec(2, 1), dec(3, 3), most.neg(), dec(1, 2)).is_none());
    assert!(Thresholds::new(dec(2, 1), dec(3, 3), dec(2, 3), most.neg()).is_none());
    assert!(Thresholds::new(dec(2, 1), most, dec(2, 3), dec(1, 2)).is_some());
    assert!(Thresholds::new(dec(1, 28), dec(3, 3), dec(1, 28), dec(1, 28)).is_some());
    let mut c = config();
    c.obi_threshold = most;
    assert!(RsiBollingerStrategy::new("X".to_string(), c).is_none());
}

#[test]
fn trailing_stop_fires_under_the_callback() {
    let mut s = warm(Some(position(dec(100, 0), dec(110, 0))), entry_indicators());
    let signal = s.evaluate(&plain_tick(dec(1097, 1)));
    assert_eq!(signal, Signal::Advice(Side::Sell, dec(1097, 1)));
    let p = s.position.unwrap();
    assert_eq!(p.highest_price, dec(110, 0));
    assert_eq!(p.entry_price, dec(100, 0));
}

#[test]
fn price_exactly_at_the_trailing_level_holds() {
    let mut s = warm(Some(position(dec(100, 0), dec(110, 0))), entry_indicators());
    assert_eq!(s.evaluate(&plain_tick(dec(10978, 2))), Signal::Hold);
    assert_eq!(
        s.evaluate(&plain_tick(dec(1_097_799, 4))),
        Signal::Advice(Side::Sell, dec(1_097_799, 4))
    );
}

#[test]
fn cold_strategy_holds_whatever_the_price() {
    for candles in [0usize, 1, 49] {
        for price in [dec(1, 8), dec(1097, 1), dec(50, 0), dec(1_000_000, 0), dec(-5, 0)] {
            let mut s = warm(Some(position(dec(100, 0), dec(110, 0))), entry_indicators());
            s.processed_candles = candles;
            assert_eq!(s.evaluate(&plain_tick(price)), Signal::Hold);
            assert_eq!(s.position.unwrap().highest_price, dec(110, 0));
            let mut flat = warm(None, entry_indicators());
            flat.processed_candles = candles;
            let t = tick(1_000, price, dec(9, 0), dec(1, 0));
            assert_eq!(flat.evaluate(&t), Signal::Hold);
            assert!(flat.position.is_none());
        }
    }
}

#[test]
fn strategy_without_indicators_holds() {
    let mut s = warm(None, entry_indicators());
    s.indicators = None;
    s.warmup_period = 0;
    let t = tick(1_000, dec(99, 0), dec(9, 0), dec(1, 0));
    assert_eq!(s.evaluate(&t), Signal::Hold);
}

#[test]
fn entry_is_advised_when_all_four_conditions_hold() {
    let mut s = warm(None, entry_indicators());
    let t = tick(1_000, dec(99, 0), dec(9, 0), dec(1, 0));
    assert_eq!(s.evaluate(&t), Signal::Advice(Side::Buy, dec(99, 0)));
    assert!(s.position.is_none());
}

#[test]
fn entry_needs_price_under_the_lower_band() {
    let mut s = warm(None, entry_indicators());
    let t = tick(1_000, dec(100, 0), dec(9, 0), dec(1, 0));
    assert_eq!(s.evaluate(&t), Signal::Hold);
}

#[test]
fn entry_needs_oversold_rsi() {
    let mut s = warm(None, indicators(dec(30, 0), dec(100, 0), dec(1, 0)));
    let t = tick(1_000, dec(99, 0), dec(9, 0), dec(1, 0));
    assert_eq!(s.evaluate(&t), Signal::Hold);
    let mut s = warm(None, indicators(dec(2999, 2), dec(100, 0), dec(1, 0)));
    assert_eq!(s.evaluate(&t), Signal::Advice(Side::Buy, dec(99, 0)));
}

#[test]
fn entry_needs_imbalance_over_threshold() {
    let mut s = warm(None, entry_indicators());
    // (6 - 4) / (6 + 4) = 0.2, not above 0.2
    assert_eq!(s.evaluate(&tick(1_000, dec(99, 0), dec(6, 0), dec(4, 0))), Signal::Hold);
    // (601 - 400) / 1001 > 0.2
    assert_eq!(
        s.evaluate(&tick(1_000, dec(99, 0), dec(601, 2), dec(400, 2))),
        Signal::Advice(Side::Buy, dec(99, 0))
    );
    // both quantities zero: imbalance 0
    assert_eq!(s.evaluate(&tick(1_000, dec(99, 0), dec(0, 0), dec(0, 0))), Signal::Hold);
}

#[test]
fn imbalance_of_an_empty_book_is_zero() {
    let below_zero = Thresholds::new(dec(-1, 1), dec(3, 3), dec(2, 3), dec(1, 2)).unwrap();
    assert!(below_zero.obi_exceeded(&dec(0, 0), &dec(0, 3)));
    let at_zero = Thresholds::new(dec(0, 0), dec(3, 3), dec(2, 3), dec(1, 2)).unwrap();
    assert!(!at_zero.obi_exceeded(&dec(0, 0), &dec(0, 0)));
    assert!(at_zero.obi_exceeded(&dec(2, 0), &dec(1, 0)));
    assert!(!at_zero.obi_exceeded(&dec(1, 0), &dec(2, 0)));
}

#[test]
fn entry_needs_volatility_over_the_floor() {
    // atr / price = 0.29 / 99 < 0.003
    let mut s = warm(None, indicators(dec(25, 0), dec(100, 0), dec(29, 2)));
    let t = tick(1_000, dec(99, 0), dec(9, 0), dec(1, 0));
    assert_eq!(s.evaluate(&t), Signal::Hold);
    // atr / price = 0.297 / 99 = 0.003 exactly: reached
    let mut s = warm(None, indicators(dec(25, 0), dec(100, 0), dec(297, 3)));
    assert_eq!(s.evaluate(&t), Signal::Advice(Side::Buy, dec(99, 0)));
}

#[test]
fn volatility_is_never_reached_at_a_price_of_zero_or_less() {
    let th = Thresholds::new(dec(2, 1), dec(3, 3), dec(2, 3), dec(1, 2)).unwrap();
    assert!(!th.volatility_met(&dec(1, 0), &dec(0, 0)));
    assert!(!th.volatility_met(&dec(1, 0), &dec(-1, 0)));
    assert!(th.volatility_met(&dec(1, 0), &dec(1, 0)));
}

#[test]
fn higher_price_ratchets_the_tracked_high() {
    let mut s = warm(Some(position(dec(100, 0), dec(110, 0))), entry_indicators());
    assert_eq!(s.evaluate(&plain_tick(dec(111, 0))), Signal::StateChanged);
    assert_eq!(s.position.as_ref().unwrap().highest_price, dec(111, 0));
    assert_eq!(s.evaluate(&plain_tick(dec(1109, 1))), Signal::Hold);
    assert_eq!(s.position.as_ref().unwrap().highest_price, dec(111, 0));
    assert_eq!(s.get_position().unwrap().highest_price, dec(111, 0));
}

#[test]
fn tracked_high_never_falls_over_a_noisy_run() {
    let mut s = warm(Some(position(dec(100, 0), dec(100, 0))), entry_indicators());
    let mut last = dec(100, 0);
    for (i, p) in [1001i64, 999, 1005, 1002, 1010, 900, 1009, 1020, 1].iter().enumerate() {
        let t = tick(5_000 - (i as u64) * 7, dec(*p, 1), dec(1, 0), dec(1, 0));
        let _ = s.evaluate(&t);
        let now = s.position.as_ref().unwrap().highest_price;
        assert!(now.ge(&last));
        assert!(now.ge(&dec(*p, 1)));
        last = now;
    }
    assert_eq!(last, dec(102, 0));
    assert_eq!(s.position.as_ref().unwrap().entry_price, dec(100, 0));
}

#[test]
fn hard_stop_fires_under_one_per_cent_of_entry() {
    let th = Thresholds::new(dec(2, 1), dec(3, 3), dec(2, 3), dec(1, 2)).unwrap();
    assert!(th.hard_stop_fired(&dec(9899, 2), &dec(100, 0)));
    assert!(!th.hard_stop_fired(&dec(99, 0), &dec(100, 0)));
    assert!(th.trailing_stop_fired(&dec(1097, 1), &dec(110, 0)));
    assert!(!th.trailing_stop_fired(&dec(10978, 2), &dec(110, 0)));
    // a wide trailing callback leaves the hard stop to fire alone
    let wide = Thresholds::new(dec(2, 1), dec(3, 3), dec(5, 1), dec(1, 2)).unwrap();
    let mut s = warm(Some(position(dec(100, 0), dec(100, 0))), entry_indicators());
    s.thresholds = wide;
    assert_eq!(s.evaluate(&plain_tick(dec(99, 0))), Signal::Hold);
    assert_eq!(s.evaluate(&plain_tick(dec(989, 1))), Signal::Advice(Side::Sell, dec(989, 1)));
    assert!(s.position.is_some());
}

#[test]
fn exit_advice_is_repeated_until_the_position_is_closed() {
    let mut s = warm(Some(position(dec(100, 0), dec(110, 0))), entry_indicators());
    let t = plain_tick(dec(1097, 1));
    assert_eq!(s.evaluate(&t), Signal::Advice(Side::Sell, dec(1097, 1)));
    assert_eq!(s.evaluate(&t), Signal::Advice(Side::Sell, dec(1097, 1)));
    s.update_position(None);
    assert_eq!(s.evaluate(&t), Signal::Hold);
}

#[test]
fn exit_on_the_tick_that_ratchets_reports_the_exit() {
    // the high moves to 200 and the hard stop is far above: exit wins over StateChanged
    let mut s = warm(Some(position(dec(1000, 0), dec(110, 0))), entry_indicators());
    assert_eq!(s.evaluate(&plain_tick(dec(200, 0))), Signal::Advice(Side::Sell, dec(200, 0)));
    assert_eq!(s.position.unwrap().highest_price, dec(200, 0));
}

#[test]
fn tick_within_the_minute_is_decided_at_once() {
    let mut s = warm(None, entry_indicators());
    let first = s.on_tick(&tick(60_000, dec(99, 0), dec(9, 0), dec(1, 0)));
    assert!(matches!(first, TickStep::Decided(Signal::Advice(Side::Buy, _))));
    let second = s.on_tick(&tick(61_000, dec(101, 0), dec(9, 0), dec(1, 0)));
    assert!(matches!(second, TickStep::Decided(Signal::Hold)));
    let c = s.current_candle.unwrap();
    assert_eq!(c.open_time, 60_000);
    assert_eq!(c.high, dec(101, 0));
    assert_eq!(s.processed_candles, DEFAULT_WARMUP);
}

#[test]
fn tick_that_closes_a_candle_waits_for_the_indicators() {
    let mut s = RsiBollingerStrategy::new("BTCUSDT".to_string(), config()).unwrap();
    s.warmup_period = 1;
    assert!(matches!(
        s.on_tick(&tick(1_000, dec(105, 0), dec(9, 0), dec(1, 0))),
        TickStep::Decided(Signal::Hold)
    ));
    let t = tick(60_500, dec(99, 0), dec(9, 0), dec(1, 0));
    let closed = match s.on_tick(&t) {
        TickStep::CandleClosed(c) => c,
        TickStep::Decided(_) => panic!("the candle of the first minute should have closed"),
    };
    assert_eq!(closed.open_time, 0);
    assert_eq!(closed.close, dec(105, 0));
    assert_eq!(s.processed_candles, 0);
    let signal = s.on_candle_closed(entry_indicators(), &t);
    assert_eq!(signal, Signal::Advice(Side::Buy, dec(99, 0)));
    assert_eq!(s.processed_candles, 1);
    assert_eq!(s.current_candle.unwrap().open_time, 60_000);
}

#[test]
fn candle_counter_saturates() {
    let mut s = warm(None, entry_indicators());
    s.processed_candles = usize::MAX;
    s.close_candle(entry_indicators());
    assert_eq!(s.processed_candles, usize::MAX);
}

#[test]
fn snapshot_values_are_checked() {
    let ok = IndicatorSnapshot::new(dec(25, 0), dec(99, 0), dec(100, 0), dec(101, 0), dec(1, 0));
    let s = ok.unwrap();
    assert_eq!(s.rsi, dec(25, 0));
    assert_eq!(s.bb_lower, dec(99, 0));
    assert_eq!(s.bb_mid, dec(100, 0));
    assert_eq!(s.bb_upper, dec(101, 0));
    assert_eq!(s.atr, dec(1, 0));
    assert!(IndicatorSnapshot::new(dec(0, 0), dec(1, 0), dec(1, 0), dec(1, 0), dec(0, 0)).is_some());
    assert!(IndicatorSnapshot::new(dec(100, 0), dec(1, 0), dec(1, 0), dec(1, 0), dec(0, 0)).is_some());
    assert!(IndicatorSnapshot::new(dec(1001, 1), dec(1, 0), dec(1, 0), dec(1, 0), dec(0, 0)).is_none());
    assert!(IndicatorSnapshot::new(dec(-1, 1), dec(1, 0), dec(1, 0), dec(1, 0), dec(0, 0)).is_none());
    assert!(IndicatorSnapshot::new(dec(50, 0), dec(2, 0), dec(1, 0), dec(3, 0), dec(0, 0)).is_none());
    assert!(IndicatorSnapshot::new(dec(50, 0), dec(1, 0), dec(3, 0), dec(2, 0), dec(0, 0)).is_none());
}
