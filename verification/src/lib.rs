//! Decision core of a single-instrument scalping bot: exact decimal
//! arithmetic, candle aggregation, the entry/exit state machine and order
//! sizing, each with a machine-checked contract.

pub mod candle;
pub mod config;
pub mod decimal;
pub mod engine;
pub mod exchange;
pub mod precision;
pub mod rounding;
pub mod signing;
pub mod strategy;
pub mod stream;
pub mod text;
pub mod tui;
pub mod types;
mod wide;
