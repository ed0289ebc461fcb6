//! The values that flow through the decision loop.

use crate::decimal::Decimal;
use std::collections::HashMap;
use vstd::prelude::*;

verus! {

/// Direction of a trade.
#[derive(Debug, Clone, Copy, PartialEq, Eq, Structural)]
pub enum Side {
    Buy,
    Sell,
}

/// One normalized market update. Never changed once produced.
#[derive(Debug, Clone)]
pub struct Ticker {
    pub symbol: String,
    /// Mid price.
    pub price: Decimal,
    pub bid_price: Decimal,
    pub ask_price: Decimal,
    pub bid_qty: Decimal,
    pub ask_qty: Decimal,
    /// Milliseconds since the epoch.
    pub timestamp: u64,
}

/// What the strategy says after a tick. `Advice` is advice only: execution
/// may still reject it.
#[derive(Debug, Clone, PartialEq)]
pub enum Signal {
    Advice(Side, Decimal),
    /// The open position's tracked high moved; the caller should persist it.
    StateChanged,
    Hold,
}

/// The open trade: the one piece of durable state.
#[derive(Debug, Clone)]
pub struct Position {
    pub symbol: String,
    pub quantity: Decimal,
    pub entry_price: Decimal,
    pub unrealized_pnl: Decimal,
    /// Highest price seen since entry; the trailing stop hangs from it.
    pub highest_price: Decimal,
}

/// Balances and positions by symbol.
#[derive(Debug, Clone)]
pub struct Inventory {
    pub quote_balance: Decimal,
    pub positions: HashMap<String, Position>,
}

/// What the venue answered to an order.
#[derive(Debug, Clone)]
pub struct OrderResponse {
    pub id: String,
    pub symbol: String,
    pub status: String,
}

/// Indicator read-out for display.
#[derive(Debug, Clone)]
pub struct StrategySnapshot {
    pub rsi: Decimal,
    pub obi: Decimal,
    pub position_pnl: Option<Decimal>,
}

/// What the decision loop tells the display, best effort.
#[derive(Debug, Clone)]
pub enum UiEvent {
    TickerUpdate(Ticker),
    Signal(Signal),
    Snapshot(StrategySnapshot),
    Log(String),
}

impl Position {
    /// A copy, field by field.
    pub fn duplicate(&self) -> (p: Position)
        ensures
            p == *self,
    {
        Position {
            symbol: self.symbol.clone(),
            quantity: self.quantity,
            entry_price: self.entry_price,
            unrealized_pnl: self.unrealized_pnl,
            highest_price: self.highest_price,
        }
    }
}

impl Default for StrategySnapshot {
    fn default() -> (s: StrategySnapshot)
        ensures
            s.rsi@ == 0,
            s.obi@ == 0,
            s.position_pnl is None,
    {
        StrategySnapshot { rsi: Decimal::zero(), obi: Decimal::zero(), position_pnl: None }
    }
}

impl Default for Inventory {
    fn default() -> (inv: Inventory)
        ensures
            inv.quote_balance@ == 0,
    {
        Inventory { quote_balance: Decimal::zero(), positions: HashMap::new() }
    }
}

} // verus!
