//! Settings, as plain values. Reading them from files and the environment
//! is left to the program around the library.

use crate::decimal::Decimal;
use vstd::prelude::*;

verus! {

/// Settings of the strategy as they are configured.
#[derive(Debug, Clone, Copy)]
pub struct StrategyConfig {
    pub rsi_period: usize,
    pub obi_threshold: Decimal,
    pub bb_period: usize,
    pub bb_std_dev: Decimal,
    /// Least `atr / price` at which an entry is considered.
    pub min_volatility: Decimal,
}

/// Settings of the whole program.
#[derive(Debug, Clone)]
pub struct AppConfig {
    pub api_key: String,
    pub secret_key: String,
    pub symbol: String,
    pub leverage: u8,
    /// Quote-currency amount committed to one entry.
    pub order_size_usdt: Decimal,
    /// Lot step: order quantities are multiples of it.
    pub symbol_step_size: Decimal,
    /// Tick: order prices are multiples of it.
    pub symbol_tick_size: Decimal,
    pub strategy: StrategyConfig,
}

} // verus!
