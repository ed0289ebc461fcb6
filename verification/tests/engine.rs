use scalper::config::{AppConfig, StrategyConfig};
use scalper::decimal::{Decimal, MAX_MANTISSA};
use scalper::engine::{
    commit, default_min_notional, default_slippage, react, restore, settle, snapshot_state,
    EngineAction, EngineState, OrderPlan, OrderRequest, OrderSizing, PlanError, SkipReason,
};
use scalper::strategy::RsiBollingerStrategy;
use scalper::types::{Position, Side, Signal, Ticker};

fn dec(mantissa: i64, scale: u32) -> Decimal {
    Decimal::new(mantissa, scale)
}

fn sizing(budget: Decimal) -> OrderSizing {
    OrderSizing {
        budget,
        step_size: dec(1, 3),
        tick_size: dec(1, 1),
        min_notional: dec(55, 1),
        slippage: dec(1, 3),
    }
}

fn strategy_config() -> StrategyConfig {
    StrategyConfig {
        rsi_period: 14,
        obi_threshold: dec(2, 1),
        bb_period: 20,
        bb_std_dev: dec(2, 0),
        min_volatility: dec(3, 3),
    }
}

fn strategy() -> RsiBollingerStrategy {
    RsiBollingerStrategy::new("BTCUSDT".to_string(), strategy_config()).unwrap()
}

fn tick(price: Decimal) -> Ticker {
    Ticker {
        symbol: "BTCUSDT".to_string(),
        price,
        bid_price: price,
        ask_price: price,
        bid_qty: dec(1, 0),
        ask_qty: dec(1, 0),
        timestamp: 1_000,
    }
}

fn submitted(plan: Result<OrderPlan, PlanError>) -> OrderRequest {
    match plan {
        Ok(OrderPlan::Submit(request)) => request,
        other => panic!("expected an order, got {:?}", other),
    }
}

fn buy_request() -> OrderRequest {
    submitted(sizing(dec(1000, 0)).plan_order("BTCUSDT".to_string(), Side::Buy, dec(50_000, 0), None))
}

#[test]
fn defaults_are_five_and_a_half_and_one_per_mille() {
    assert_eq!(default_min_notional(), dec(55, 1));
    assert_eq!(default_slippage(), dec(1, 3));
    let config = AppConfig {
        api_key: "k".to_string(),
        secret_key: "s".to_string(),
        symbol: "BTCUSDT".to_string(),
        leverage: 5,
        order_size_usdt: dec(1000, 0),
        symbol_step_size: dec(1, 3),
        symbol_tick_size: dec(1, 1),
        strategy: strategy_config(),
    };
    let s = OrderSizing::from_config(&config);
    assert_eq!(s.budget, dec(1000, 0));
    assert_eq!(s.step_size, dec(1, 3));
    assert_eq!(s.tick_size, dec(1, 1));
    assert_eq!(s.min_notional, dec(55, 1));
    assert_eq!(s.slippage, dec(1, 3));
}

#[test]
fn small_budget_rounds_to_zero_and_places_nothing() {
    let plan = sizing(dec(10, 0)).plan_order("BTCUSDT".to_string(), Side::Buy, dec(50_000, 0), None);
    assert!(matches!(plan, Ok(OrderPlan::Skip(SkipReason::ZeroQuantity))));
    let mut s = strategy();
    let action = react(
        &sizing(dec(10, 0)),
        &s,
        &Signal::Advice(Side::Buy, dec(50_000, 0)),
        &tick(dec(50_000, 0)),
    );
    assert!(matches!(action, Ok(EngineAction::Skipped(SkipReason::ZeroQuantity))));
    assert!(s.position.is_none());
    s.update_position(None);
    assert!(s.get_position().is_none());
}

#[test]
fn budget_of_a_thousand_buys_twenty_thousandths_at_slipped_price() {
    let request = buy_request();
    assert_eq!(request.symbol, "BTCUSDT");
    assert_eq!(request.side, Side::Buy);
    assert_eq!(request.quantity, dec(20, 3));
    assert_eq!(request.quantity.mantissa(), 20);
    assert_eq!(request.quantity.scale(), 3);
    assert_eq!(request.limit_price, dec(50_050, 0));
    assert_eq!(request.limit_price.mantissa(), 500_500);
    assert_eq!(request.limit_price.scale(), 1);
    assert_eq!(request.reference_price, dec(50_000, 0));
    // notional 1000 is at or over the floor of 5.5
    let notional = request.quantity.checked_mul(&dec(50_000, 0)).unwrap();
    assert_eq!(notional, dec(1000, 0));
    assert!(notional.ge(&dec(55, 1)));
}

#[test]
fn entry_quantity_is_rounded_down_never_up() {
    // 1000 / 30000 = 0.0333..., 33 whole steps of 0.001
    let request = submitted(
        sizing(dec(1000, 0)).plan_order("BTCUSDT".to_string(), Side::Buy, dec(30_000, 0), None),
    );
    assert_eq!(request.quantity, dec(33, 3));
    let committed = request.quantity.checked_mul(&dec(30_000, 0)).unwrap();
    assert!(committed.le(&dec(1000, 0)));
    // 999.999 / 50000 is just under 0.02: 19 steps, not 20
    let request = submitted(
        sizing(dec(999_999, 3)).plan_order("BTCUSDT".to_string(), Side::Buy, dec(50_000, 0), None),
    );
    assert_eq!(request.quantity, dec(19, 3));
}

#[test]
fn order_under_the_notional_floor_is_skipped() {
    // 0.001 * 5000 = 5 < 5.5
    let plan = sizing(dec(5, 0)).plan_order("BTCUSDT".to_string(), Side::Buy, dec(5_000, 0), None);
    assert!(matches!(plan, Ok(OrderPlan::Skip(SkipReason::BelowMinNotional))));
    // 0.001 * 5500 = 5.5: at the floor, sent
    let plan = sizing(dec(55, 1)).plan_order("BTCUSDT".to_string(), Side::Buy, dec(5_500, 0), None);
    assert!(matches!(plan, Ok(OrderPlan::Submit(_))));
}

#[test]
fn exit_sells_what_is_held_at_a_price_slipped_down() {
    let request = submitted(sizing(dec(1000, 0)).plan_order(
        "BTCUSDT".to_string(),
        Side::Sell,
        dec(1097, 1),
        Some(dec(20_004, 4)),
    ));
    assert_eq!(request.side, Side::Sell);
    assert_eq!(request.quantity, dec(2_000, 3));
    // 109.7 * 0.999 = 109.5903, nearest tick 109.6
    assert_eq!(request.limit_price, dec(1096, 1));
    assert_eq!(request.reference_price, dec(1097, 1));
}

#[test]
fn exit_with_nothing_held_is_skipped() {
    let plan = sizing(dec(1000, 0)).plan_order("BTCUSDT".to_string(), Side::Sell, dec(100, 0), None);
    assert!(matches!(plan, Ok(OrderPlan::Skip(SkipReason::NoPosition))));
}

#[test]
fn limit_price_is_rounded_to_the_nearest_tick() {
    let mut s = sizing(dec(1000, 0));
    s.tick_size = dec(5, 0);
    // 100 * 1.001 = 100.1 -> 100
    let request = submitted(s.plan_order("X".to_string(), Side::Buy, dec(100, 0), None));
    assert_eq!(request.limit_price, dec(100, 0));
    // 102.4 * 1.001 = 102.5024 -> 105 ; reference 102.4 -> 100
    let request = submitted(s.plan_order("X".to_string(), Side::Buy, dec(1024, 1), None));
    assert_eq!(request.limit_price, dec(105, 0));
    assert_eq!(request.reference_price, dec(100, 0));
}

#[test]
fn zero_tick_keeps_the_slipped_price_exact() {
    let mut s = sizing(dec(1000, 0));
    s.tick_size = Decimal::zero();
    let request = submitted(s.plan_order("X".to_string(), Side::Buy, dec(123_456, 3), None));
    assert_eq!(request.limit_price.mantissa(), 123_579_456);
    assert_eq!(request.limit_price.scale(), 6);
    assert_eq!(request.reference_price.mantissa(), 123_456);
    assert_eq!(request.reference_price.scale(), 3);
}

#[test]
fn price_of_zero_or_less_is_refused() {
    let s = sizing(dec(1000, 0));
    assert!(matches!(
        s.plan_order("X".to_string(), Side::Buy, dec(0, 0), None),
        Err(PlanError::InvalidPrice)
    ));
    assert!(matches!(
        s.plan_order("X".to_string(), Side::Sell, dec(-1, 0), Some(dec(1, 0))),
        Err(PlanError::InvalidPrice)
    ));
}

#[test]
fn negative_step_is_refused() {
    let mut s = sizing(dec(1000, 0));
    s.step_size = dec(-1, 3);
    assert!(matches!(
        s.plan_order("X".to_string(), Side::Sell, dec(100, 0), Some(dec(1, 0))),
        Err(PlanError::InvalidStep)
    ));
    assert!(matches!(
        s.plan_order("X".to_string(), Side::Buy, dec(100, 0), None),
        Err(PlanError::InvalidStep)
    ));
}

#[test]
fn without_a_step_an_entry_buys_what_the_budget_buys() {
    let mut s = sizing(dec(1000, 0));
    s.step_size = Decimal::zero();
    // 1000 / 50000 = 0.02 exactly, held with as many places as fit
    let request = submitted(s.plan_order("X".to_string(), Side::Buy, dec(50_000, 0), None));
    assert_eq!(request.quantity, dec(2, 2));
    assert_eq!(request.quantity.scale(), 28);
    // 1000 / 30000 = 0.0333..., cut off, never rounded up
    let request = submitted(s.plan_order("X".to_string(), Side::Buy, dec(30_000, 0), None));
    assert_eq!(request.quantity.mantissa(), 333_333_333_333_333_333_333_333_333);
    assert_eq!(request.quantity.scale(), 28);
    assert!(request.quantity.lt(&dec(33_333_334, 9)));
    assert!(request.quantity.gt(&dec(33_333_333, 9)));
    // 2000 / 3 = 666.66..., fewer places fit
    let mut t = sizing(dec(2000, 0));
    t.step_size = Decimal::zero();
    let request = submitted(t.plan_order("X".to_string(), Side::Buy, dec(3, 0), None));
    assert_eq!(request.quantity.mantissa(), 66_666_666_666_666_666_666_666_666_666);
    assert_eq!(request.quantity.scale(), 26);
}

#[test]
fn without_a_step_an_exit_sells_all_that_is_held() {
    let mut s = sizing(dec(1000, 0));
    s.step_size = Decimal::zero();
    let request = submitted(s.plan_order(
        "X".to_string(),
        Side::Sell,
        dec(100, 0),
        Some(dec(12_345_678, 8)),
    ));
    assert_eq!(request.quantity.mantissa(), 12_345_678);
    assert_eq!(request.quantity.scale(), 8);
}

#[test]
fn numbers_beyond_the_machine_are_reported() {
    let mut s = sizing(Decimal::try_from_i128_with_scale(MAX_MANTISSA, 0).unwrap());
    s.step_size = dec(1, 28);
    assert!(matches!(
        s.plan_order("X".to_string(), Side::Buy, dec(1, 28), None),
        Err(PlanError::Overflow)
    ));
    let mut s = sizing(dec(1000, 0));
    s.slippage = Decimal::try_from_i128_with_scale(MAX_MANTISSA, 28).unwrap();
    assert!(matches!(
        s.plan_order("X".to_string(), Side::Buy, dec(100, 0), None),
        Err(PlanError::Overflow)
    ));
}

#[test]
fn negative_budget_comes_to_no_order() {
    let plan = sizing(dec(-1000, 0)).plan_order("X".to_string(), Side::Buy, dec(100, 0), None);
    assert!(matches!(plan, Ok(OrderPlan::Skip(SkipReason::ZeroQuantity))));
}

#[test]
fn filled_buy_opens_the_position_at_the_limit_price() {
    let request = buy_request();
    let p = settle(None, &request, true, true).unwrap();
    assert_eq!(p.symbol, "BTCUSDT");
    assert_eq!(p.quantity, dec(20, 3));
    assert_eq!(p.entry_price, dec(50_050, 0));
    assert_eq!(p.highest_price, dec(50_050, 0));
    assert!(p.unrealized_pnl.is_zero());
}

#[test]
fn simulated_fill_opens_the_position_at_the_reference_price() {
    let request = buy_request();
    let p = settle(None, &request, true, false).unwrap();
    assert_eq!(p.entry_price, dec(50_000, 0));
    assert_eq!(p.highest_price, dec(50_000, 0));
}

#[test]
fn unfilled_order_leaves_the_position_alone() {
    let request = buy_request();
    assert!(settle(None, &request, false, true).is_none());
    let mut s = strategy();
    assert!(!commit(&mut s, &request, false, true));
    assert!(s.position.is_none());

    let held = Position {
        symbol: "BTCUSDT".to_string(),
        quantity: dec(20, 3),
        entry_price: dec(100, 0),
        unrealized_pnl: Decimal::zero(),
        highest_price: dec(110, 0),
    };
    let mut sell = buy_request();
    sell.side = Side::Sell;
    s.update_position(Some(held));
    assert!(!commit(&mut s, &sell, false, true));
    let kept = s.position.as_ref().unwrap();
    assert_eq!(kept.entry_price, dec(100, 0));
    assert_eq!(kept.highest_price, dec(110, 0));
    assert_eq!(kept.quantity, dec(20, 3));
}

#[test]
fn position_moves_only_on_fills() {
    let mut s = strategy();
    let request = buy_request();
    assert!(commit(&mut s, &request, true, true));
    assert_eq!(s.position.as_ref().unwrap().entry_price, dec(50_050, 0));
    let mut sell = buy_request();
    sell.side = Side::Sell;
    assert!(commit(&mut s, &sell, true, true));
    assert!(s.position.is_none());
}

#[test]
fn signals_map_to_actions() {
    let s = strategy();
    let sz = sizing(dec(1000, 0));
    let t = tick(dec(50_000, 0));
    assert!(matches!(react(&sz, &s, &Signal::Hold, &t), Ok(EngineAction::Idle)));
    assert!(matches!(react(&sz, &s, &Signal::StateChanged, &t), Ok(EngineAction::Persist)));
    match react(&sz, &s, &Signal::Advice(Side::Buy, dec(50_000, 0)), &t) {
        Ok(EngineAction::Place(request)) => {
            assert_eq!(request.quantity, dec(20, 3));
            assert_eq!(request.symbol, "BTCUSDT");
        }
        other => panic!("expected an order, got {:?}", other),
    }
    assert!(matches!(
        react(&sz, &s, &Signal::Advice(Side::Sell, dec(50_000, 0)), &t),
        Ok(EngineAction::Skipped(SkipReason::NoPosition))
    ));
    assert!(matches!(
        react(&sz, &s, &Signal::Advice(Side::Buy, dec(0, 0)), &t),
        Err(PlanError::InvalidPrice)
    ));
}

#[test]
fn exit_advice_sells_the_quantity_held() {
    let mut s = strategy();
    s.update_position(Some(Position {
        symbol: "BTCUSDT".to_string(),
        quantity: dec(33, 3),
        entry_price: dec(100, 0),
        unrealized_pnl: Decimal::zero(),
        highest_price: dec(110, 0),
    }));
    let sz = sizing(dec(1000, 0));
    match react(&sz, &s, &Signal::Advice(Side::Sell, dec(1_097, 1)), &tick(dec(1_097, 1))) {
        Ok(EngineAction::Skipped(SkipReason::BelowMinNotional)) => {}
        other => panic!("0.033 * 109.7 is under the floor, got {:?}", other),
    }
    match react(&sz, &s, &Signal::Advice(Side::Sell, dec(1_000, 0)), &tick(dec(1_000, 0))) {
        Ok(EngineAction::Place(request)) => {
            assert_eq!(request.side, Side::Sell);
            assert_eq!(request.quantity, dec(33, 3));
            assert_eq!(request.limit_price, dec(999, 0));
        }
        other => panic!("expected an order, got {:?}", other),
    }
}

#[test]
fn stored_state_restores_the_position() {
    let mut s = strategy();
    restore(&mut s, None);
    assert!(s.position.is_none());
    let held = Position {
        symbol: "BTCUSDT".to_string(),
        quantity: dec(20, 3),
        entry_price: dec(100, 0),
        unrealized_pnl: Decimal::zero(),
        highest_price: dec(110, 0),
    };
    restore(&mut s, Some(EngineState { active_position: Some(held) }));
    assert_eq!(s.position.as_ref().unwrap().highest_price, dec(110, 0));
    let state = snapshot_state(&s);
    assert_eq!(state.active_position.unwrap().entry_price, dec(100, 0));
    restore(&mut s, None);
    assert!(s.position.is_some());
    restore(&mut s, Some(EngineState { active_position: None }));
    assert!(s.position.is_none());
}
