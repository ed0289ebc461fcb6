use scalper::decimal::Decimal;
use scalper::tui::{
    contains_text, estimate_entry, estimate_position, log_kind, log_line, signal_log, uptime_text,
    App, LogKind, MAX_LOG_LINES,
};
use scalper::types::{Side, Signal, StrategySnapshot, Ticker, UiEvent};

fn tick(price: Decimal) -> Ticker {
    Ticker {
        symbol: "BTCUSDT".to_string(),
        price,
        bid_price: price,
        ask_price: price,
        bid_qty: Decimal::one(),
        ask_qty: Decimal::one(),
        timestamp: 1,
    }
}

#[test]
fn display_starts_waiting() {
    let app = App::new("BTCUSDT".to_string());
    assert_eq!(app.symbol, "BTCUSDT");
    assert!(app.price.is_zero());
    assert_eq!(app.rsi, Decimal::new(50, 0));
    assert!(app.obi.is_zero());
    assert!(app.pnl.is_none());
    assert!(app.logs.is_empty());
    assert_eq!(app.active_signal, "WAITING");
}

#[test]
fn log_lines_carry_the_time() {
    assert_eq!(log_line("12:34:56", "hello"), "[12:34:56] hello");
    assert_eq!(log_line("", ""), "[] ");
}

#[test]
fn uptime_is_shown_in_two_digit_fields() {
    assert_eq!(uptime_text(0), "00:00:00");
    assert_eq!(uptime_text(59), "00:00:59");
    assert_eq!(uptime_text(60), "00:01:00");
    assert_eq!(uptime_text(3_599), "00:59:59");
    assert_eq!(uptime_text(3_600), "01:00:00");
    assert_eq!(uptime_text(86_399), "23:59:59");
    assert_eq!(uptime_text(360_000 + 61), "100:01:01");
}

#[test]
fn log_keeps_the_last_twenty_lines() {
    let mut app = App::new("X".to_string());
    assert_eq!(MAX_LOG_LINES, 20);
    for i in 0..25 {
        app.add_log("t", &format!("line {}", i));
    }
    assert_eq!(app.logs.len(), 20);
    assert_eq!(app.logs[0], "[t] line 5");
    assert_eq!(app.logs[19], "[t] line 24");
}

#[test]
fn advice_is_shown_and_logged() {
    assert_eq!(signal_log(Side::Buy, &Decimal::new(500_001, 1)), "SIGNAL: Buy @ 50000.1");
    assert_eq!(signal_log(Side::Sell, &Decimal::new(1097, 1)), "SIGNAL: Sell @ 109.7");
    let mut app = App::new("X".to_string());
    app.apply(UiEvent::Signal(Signal::Advice(Side::Buy, Decimal::new(500_001, 1))), "09:00:00");
    assert_eq!(app.active_signal, "BUY");
    assert_eq!(app.logs, vec!["[09:00:00] SIGNAL: Buy @ 50000.1".to_string()]);
    app.apply(UiEvent::Signal(Signal::Advice(Side::Sell, Decimal::new(1097, 1))), "09:00:01");
    assert_eq!(app.active_signal, "SELL");
    assert_eq!(app.logs.len(), 2);
    assert_eq!(app.logs[1], "[09:00:01] SIGNAL: Sell @ 109.7");
}

#[test]
fn hold_and_state_change() {
    let mut app = App::new("X".to_string());
    app.apply(UiEvent::Signal(Signal::StateChanged), "t");
    assert_eq!(app.active_signal, "WAITING");
    app.apply(UiEvent::Signal(Signal::Hold), "t");
    assert_eq!(app.active_signal, "HOLD");
    assert!(app.logs.is_empty());
}

#[test]
fn tick_snapshot_and_log_events() {
    let mut app = App::new("X".to_string());
    app.apply(UiEvent::TickerUpdate(tick(Decimal::new(12_345, 2))), "t");
    assert_eq!(app.price, Decimal::new(12_345, 2));
    app.apply(
        UiEvent::Snapshot(StrategySnapshot {
            rsi: Decimal::new(278, 1),
            obi: Decimal::new(-3, 1),
            position_pnl: Some(Decimal::new(12, 3)),
        }),
        "t",
    );
    assert_eq!(app.rsi, Decimal::new(278, 1));
    assert_eq!(app.obi, Decimal::new(-3, 1));
    assert_eq!(app.pnl, Some(Decimal::new(12, 3)));
    assert_eq!(app.price, Decimal::new(12_345, 2));
    app.apply(UiEvent::Log("engine started".to_string()), "08:00:00");
    assert_eq!(app.logs, vec!["[08:00:00] engine started".to_string()]);
    let d = StrategySnapshot::default();
    assert!(d.rsi.is_zero() && d.obi.is_zero() && d.position_pnl.is_none());
}

#[test]
fn estimate_of_a_one_per_cent_gain() {
    let e = estimate_position(&Decimal::new(1, 2)).unwrap();
    assert_eq!(e.gross_pnl, Decimal::new(1, 1));
    assert_eq!(e.total_fees, Decimal::new(1005, 5));
    assert_eq!(e.net_pnl, Decimal::new(8995, 5));
    assert_eq!(e.net_pnl_pct, Decimal::new(8995, 4));
    assert!(e.long);
}

#[test]
fn estimate_of_a_loss_and_of_no_change() {
    let e = estimate_position(&Decimal::new(-2, 2)).unwrap();
    assert_eq!(e.gross_pnl, Decimal::new(-2, 1));
    assert_eq!(e.total_fees, Decimal::new(99, 4));
    assert_eq!(e.net_pnl, Decimal::new(-2099, 4));
    assert_eq!(e.net_pnl_pct, Decimal::new(-2099, 3));
    assert!(!e.long);
    let flat = estimate_position(&Decimal::zero()).unwrap();
    assert!(flat.gross_pnl.is_zero());
    assert_eq!(flat.total_fees, Decimal::new(1, 2));
    assert_eq!(flat.net_pnl, Decimal::new(-1, 2));
    assert!(flat.long);
    assert!(estimate_position(&Decimal::new(1, 27)).is_none());
}

#[test]
fn entry_price_is_estimated_to_four_places() {
    let entry = estimate_entry(&Decimal::new(101, 0), &Decimal::new(1, 2)).unwrap();
    assert_eq!(entry, Decimal::new(100, 0));
    assert_eq!(entry.scale(), 4);
    let entry = estimate_entry(&Decimal::new(100, 0), &Decimal::new(3, 2)).unwrap();
    assert_eq!(entry, Decimal::new(970_874, 4));
    let entry = estimate_entry(&Decimal::new(500_001, 1), &Decimal::zero()).unwrap();
    assert_eq!(entry, Decimal::new(500_001, 1));
    let entry = estimate_entry(&Decimal::new(99, 0), &Decimal::new(-1, 2)).unwrap();
    assert_eq!(entry, Decimal::new(100, 0));
    assert!(estimate_entry(&Decimal::new(99, 0), &Decimal::new(-1, 0)).is_none());
}

#[test]
fn log_lines_are_told_apart() {
    assert_eq!(log_kind("[09:00:00] SIGNAL: Buy @ 1"), LogKind::Signal);
    assert_eq!(log_kind("[09:00:00] Execution Error: timeout"), LogKind::Error);
    assert_eq!(log_kind("Error after SIGNAL"), LogKind::Signal);
    assert_eq!(log_kind("[09:00:00] engine started"), LogKind::Plain);
    assert_eq!(log_kind("signal error"), LogKind::Plain);
    assert_eq!(log_kind(""), LogKind::Plain);
    assert!(contains_text("abc", ""));
    assert!(contains_text("", ""));
    assert!(!contains_text("", "a"));
    assert!(contains_text("xxab", "ab"));
    assert!(!contains_text("xxa", "ab"));
    assert!(contains_text("aab", "ab"));
    assert!(contains_text("héllo wörld", "wör"));
}
