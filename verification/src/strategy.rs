//! The signal state machine: flat or holding one position, deciding on every
//! tick between holding, advising an entry and advising an exit.

use crate::candle::{closed_candle, fold_candles, next_candle, roll, CandleBuilder};
use crate::config::StrategyConfig;
use crate::decimal::{compare_products, lemma_pow10_positive, pow10, unit, Decimal};
use crate::types::{Position, Side, Signal, Ticker};
use vstd::prelude::*;

verus! {

/// An entry needs the RSI under this level.
pub const RSI_OVERSOLD: i64 = 30;

/// Closed candles needed before the indicators are trusted.
pub const DEFAULT_WARMUP: usize = 50;

/// What the indicator engine reports when a candle closes.
#[derive(Debug, Clone, Copy)]
pub struct IndicatorSnapshot {
    pub rsi: Decimal,
    pub bb_lower: Decimal,
    pub bb_mid: Decimal,
    pub bb_upper: Decimal,
    pub atr: Decimal,
}

impl IndicatorSnapshot {
    /// Whether the values can be indicator values: the RSI lies between 0
    /// and 100, and the three bands are in order.
    pub open spec fn is_valid(self) -> bool {
        &&& 0 <= self.rsi@ <= 100 * unit()
        &&& self.bb_lower@ <= self.bb_mid@ <= self.bb_upper@
    }

    /// The snapshot of the five values, where they can be indicator values.
    pub fn new(
        rsi: Decimal,
        bb_lower: Decimal,
        bb_mid: Decimal,
        bb_upper: Decimal,
        atr: Decimal,
    ) -> (r: Option<IndicatorSnapshot>)
        ensures
            r is Some <==> (IndicatorSnapshot { rsi, bb_lower, bb_mid, bb_upper, atr }).is_valid(),
            r matches Some(s) ==> s == (IndicatorSnapshot { rsi, bb_lower, bb_mid, bb_upper, atr }),
    {
        let zero: Decimal = Decimal::zero();
        let hundred: Decimal = Decimal::new(100, 0);
        proof {
            lemma_pow10_positive(28);
        }
        if rsi.ge(&zero) && rsi.le(&hundred) && bb_lower.le(&bb_mid) && bb_mid.le(&bb_upper) {
            Some(IndicatorSnapshot { rsi, bb_lower, bb_mid, bb_upper, atr })
        } else {
            None
        }
    }
}

/// Whether the order-book imbalance `(bid - ask) / (bid + ask)`, taken as
/// zero where both quantities are zero, is above `threshold`. All three are
/// views: counts of `10^-28`.
pub open spec fn obi_above(bid: int, ask: int, threshold: int) -> bool {
    let total = bid + ask;
    if total == 0 {
        0 > threshold
    } else if total > 0 {
        (bid - ask) * unit() > threshold * total
    } else {
        (bid - ask) * unit() < threshold * total
    }
}

/// Whether `atr / price` reaches `floor`, for a positive price.
pub open spec fn volatility_reached(atr: int, price: int, floor: int) -> bool {
    price > 0 && atr * unit() >= floor * price
}

/// Whether `price` is under `reference * (1 - fraction)`: the test of the
/// trailing stop against the tracked high, and of the hard stop against the
/// entry price.
pub open spec fn stop_hit(price: int, reference: int, fraction: int) -> bool {
    price * unit() < reference * (unit() - fraction)
}

/// The four thresholds of the strategy, with the factors derived from them.
#[derive(Debug, Clone, Copy)]
pub struct Thresholds {
    obi_threshold: Decimal,
    min_volatility: Decimal,
    trailing_callback: Decimal,
    hard_stop_pct: Decimal,
    obi_minus: Decimal,
    obi_plus: Decimal,
    trail_factor: Decimal,
    hard_factor: Decimal,
}

impl Thresholds {
    #[verifier::type_invariant]
    spec fn wf(self) -> bool {
        &&& self.obi_minus@ == unit() - self.obi_threshold@
        &&& self.obi_plus@ == unit() + self.obi_threshold@
        &&& self.trail_factor@ == unit() - self.trailing_callback@
        &&& self.hard_factor@ == unit() - self.hard_stop_pct@
    }

    /// Least imbalance of the order book for an entry.
    pub closed spec fn obi_threshold(self) -> Decimal {
        self.obi_threshold
    }

    /// Least `atr / price` for an entry.
    pub closed spec fn min_volatility(self) -> Decimal {
        self.min_volatility
    }

    /// Fraction under the tracked high at which the trailing stop fires.
    pub closed spec fn trailing_callback(self) -> Decimal {
        self.trailing_callback
    }

    /// Fraction under the entry price at which the hard stop fires.
    pub closed spec fn hard_stop_pct(self) -> Decimal {
        self.hard_stop_pct
    }

    /// Whether the factors `1 - x` and `1 + x` that the tests multiply by
    /// can all be held.
    pub open spec fn derivable(
        obi_threshold: Decimal,
        trailing_callback: Decimal,
        hard_stop_pct: Decimal,
    ) -> bool {
        &&& obi_threshold.complement_fits()
        &&& obi_threshold.successor_fits()
        &&& trailing_callback.complement_fits()
        &&& hard_stop_pct.complement_fits()
    }

    /// The thresholds, where their factors can be held.
    pub fn new(
        obi_threshold: Decimal,
        min_volatility: Decimal,
        trailing_callback: Decimal,
        hard_stop_pct: Decimal,
    ) -> (r: Option<Thresholds>)
        ensures
            r is Some <==> Self::derivable(obi_threshold, trailing_callback, hard_stop_pct),
            r matches Some(t) ==> {
                &&& t.obi_threshold() == obi_threshold
                &&& t.min_volatility() == min_volatility
                &&& t.trailing_callback() == trailing_callback
                &&& t.hard_stop_pct() == hard_stop_pct
            },
    {
        let obi_minus = obi_threshold.one_minus();
        let obi_plus = obi_threshold.one_plus();
        let trail_factor = trailing_callback.one_minus();
        let hard_factor = hard_stop_pct.one_minus();
        match (obi_minus, obi_plus, trail_factor, hard_factor) {
            (Some(obi_minus), Some(obi_plus), Some(trail_factor), Some(hard_factor)) => Some(
                Thresholds {
                    obi_threshold,
                    min_volatility,
                    trailing_callback,
                    hard_stop_pct,
                    obi_minus,
                    obi_plus,
                    trail_factor,
                    hard_factor,
                },
            ),
            _ => None,
        }
    }

    /// Least imbalance of the order book for an entry.
    pub fn get_obi_threshold(&self) -> (d: Decimal)
        ensures
            d == self.obi_threshold(),
    {
        self.obi_threshold
    }

    /// Least `atr / price` for an entry.
    pub fn get_min_volatility(&self) -> (d: Decimal)
        ensures
            d == self.min_volatility(),
    {
        self.min_volatility
    }

    /// Fraction under the tracked high at which the trailing stop fires.
    pub fn get_trailing_callback(&self) -> (d: Decimal)
        ensures
            d == self.trailing_callback(),
    {
        self.trailing_callback
    }

    /// Fraction under the entry price at which the hard stop fires.
    pub fn get_hard_stop_pct(&self) -> (d: Decimal)
        ensures
            d == self.hard_stop_pct(),
    {
        self.hard_stop_pct
    }

    /// Whether the imbalance of the two quantities is above the threshold.
    pub fn obi_exceeded(&self, bid_qty: &Decimal, ask_qty: &Decimal) -> (r: bool)
        ensures
            r == obi_above(bid_qty@, ask_qty@, self.obi_threshold()@),
    {
        proof {
            use_type_invariant(self);
            let b = bid_qty@;
            let a = ask_qty@;
            let t = self.obi_threshold@;
            let u = unit();
            assert(b * (u - t) - a * (u + t) == (b - a) * u - t * (b + a)) by (nonlinear_arith);
        }
        let minus_ask: Decimal = ask_qty.neg();
        let total_sign: i8 = bid_qty.compare(&minus_ask);
        if total_sign == 0 {
            let zero: Decimal = Decimal::zero();
            self.obi_threshold.lt(&zero)
        } else {
            let c: i8 = compare_products(bid_qty, &self.obi_minus, ask_qty, &self.obi_plus);
            if total_sign > 0 {
                c > 0
            } else {
                c < 0
            }
        }
    }

    /// Whether `atr / price` reaches the volatility floor.
    pub fn volatility_met(&self, atr: &Decimal, price: &Decimal) -> (r: bool)
        ensures
            r == volatility_reached(atr@, price@, self.min_volatility()@),
    {
        let one: Decimal = Decimal::one();
        price.is_positive() && compare_products(atr, &one, &self.min_volatility, price) >= 0
    }

    /// Whether `price` has fallen through the trailing stop under `highest`.
    pub fn trailing_stop_fired(&self, price: &Decimal, highest: &Decimal) -> (r: bool)
        ensures
            r == stop_hit(price@, highest@, self.trailing_callback()@),
    {
        proof {
            use_type_invariant(self);
        }
        let one: Decimal = Decimal::one();
        compare_products(price, &one, highest, &self.trail_factor) < 0
    }

    /// Whether `price` has fallen through the hard stop under `entry`.
    pub fn hard_stop_fired(&self, price: &Decimal, entry: &Decimal) -> (r: bool)
        ensures
            r == stop_hit(price@, entry@, self.hard_stop_pct()@),
    {
        proof {
            use_type_invariant(self);
        }
        let one: Decimal = Decimal::one();
        compare_products(price, &one, entry, &self.hard_factor) < 0
    }
}


/// The position with its tracked high raised to the tick's price where that
/// is higher; nothing else changes.
pub open spec fn ratcheted(position: Position, tick: Ticker) -> Position {
    Position {
        highest_price: if tick.price@ > position.highest_price@ {
            tick.price
        } else {
            position.highest_price
        },
        ..position
    }
}

/// What handling a tick comes to: a decision, or first a request for the
/// indicators of the candle that the tick closed.
#[derive(Debug, Clone)]
pub enum TickStep {
    /// No candle closed; this is the signal for the tick.
    Decided(Signal),
    /// The tick closed this candle. The indicators are to be advanced by it
    /// and handed to `on_candle_closed` together with the same tick.
    CandleClosed(CandleBuilder),
}

/// RSI and Bollinger entry with order-book confirmation; trailing and hard
/// stop exit.
pub struct RsiBollingerStrategy {
    pub symbol: String,
    pub thresholds: Thresholds,
    pub current_candle: Option<CandleBuilder>,
    /// Latest indicator values; `None` until a candle has closed.
    pub indicators: Option<IndicatorSnapshot>,
    pub position: Option<Position>,
    pub warmup_period: usize,
    pub processed_candles: usize,
}

impl RsiBollingerStrategy {
    /// Whether decisions may be taken: enough candles have closed and the
    /// indicators have been written at least once.
    pub open spec fn is_warm(self) -> bool {
        self.processed_candles >= self.warmup_period && self.indicators is Some
    }

    /// The entry condition on a tick, given the indicators: the market is
    /// volatile enough, the price is under the lower band, the RSI is
    /// oversold and the order book leans to the bid.
    pub open spec fn entry_met(self, tick: Ticker) -> bool {
        let ind = self.indicators->0;
        &&& volatility_reached(ind.atr@, tick.price@, self.thresholds.min_volatility()@)
        &&& tick.price@ < ind.bb_lower@
        &&& ind.rsi@ < RSI_OVERSOLD * unit()
        &&& obi_above(tick.bid_qty@, tick.ask_qty@, self.thresholds.obi_threshold()@)
    }

    /// The exit condition on a tick for a position whose high has already
    /// been ratcheted: trailing stop first, hard stop second.
    pub open spec fn exit_met(self, position: Position, tick: Ticker) -> bool {
        ||| stop_hit(
            tick.price@,
            position.highest_price@,
            self.thresholds.trailing_callback()@,
        )
        ||| stop_hit(tick.price@, position.entry_price@, self.thresholds.hard_stop_pct()@)
    }

    /// The signal for a tick.
    pub open spec fn decision(self, tick: Ticker) -> Signal {
        if !self.is_warm() {
            Signal::Hold
        } else {
            match self.position {
                None => if self.entry_met(tick) {
                    Signal::Advice(Side::Buy, tick.price)
                } else {
                    Signal::Hold
                },
                Some(position) => if self.exit_met(ratcheted(position, tick), tick) {
                    Signal::Advice(Side::Sell, tick.price)
                } else if tick.price@ > position.highest_price@ {
                    Signal::StateChanged
                } else {
                    Signal::Hold
                },
            }
        }
    }

    /// The position after a tick has been evaluated: ratcheted where the
    /// strategy is warm and a position is open, untouched otherwise.
    pub open spec fn position_after(self, tick: Ticker) -> Option<Position> {
        match self.position {
            Some(position) => if self.is_warm() {
                Some(ratcheted(position, tick))
            } else {
                Some(position)
            },
            None => None,
        }
    }

    /// A flat, cold strategy for `symbol`, with the default warm-up, where
    /// the factors of the thresholds can be held.
    pub fn new(symbol: String, config: StrategyConfig) -> (r: Option<RsiBollingerStrategy>)
        ensures
            r is Some <==> config.obi_threshold.complement_fits()
                && config.obi_threshold.successor_fits(),
            r matches Some(s) ==> {
                &&& s.symbol == symbol
                &&& s.thresholds.obi_threshold() == config.obi_threshold
                &&& s.thresholds.min_volatility() == config.min_volatility
                &&& s.thresholds.trailing_callback() == default_trailing_callback()
                &&& s.thresholds.hard_stop_pct() == default_hard_stop_pct()
                &&& s.current_candle is None
                &&& s.indicators is None
                &&& s.position is None
                &&& s.warmup_period == DEFAULT_WARMUP
                &&& s.processed_candles == 0
            },
    {
        proof {
            reveal_with_fuel(pow10, 4);
            Decimal::lemma_from_parts(2, 3);
            Decimal::lemma_from_parts(1, 2);
        }
        let thresholds = Thresholds::new(
            config.obi_threshold,
            config.min_volatility,
            default_trailing_callback(),
            default_hard_stop_pct(),
        );
        match thresholds {
            Some(thresholds) => Some(
                RsiBollingerStrategy {
                    symbol,
                    thresholds,
                    current_candle: None,
                    indicators: None,
                    position: None,
                    warmup_period: DEFAULT_WARMUP,
                    processed_candles: 0,
                },
            ),
            None => None,
        }
    }

    /// The strategy's name.
    pub fn name(&self) -> (n: String)
        ensures
            n@ == "Fut_OBI_Scalper"@,
    {
        "Fut_OBI_Scalper".to_string()
    }

    /// Feeds the tick to the candle aggregator. Returns the candle that the
    /// tick closed, if any. Position, indicators and counters stay.
    pub fn roll_candle(&mut self, tick: &Ticker) -> (closed: Option<CandleBuilder>)
        ensures
            closed == closed_candle(old(self).current_candle, *tick),
            *final(self) == (RsiBollingerStrategy {
                current_candle: Some(next_candle(old(self).current_candle, *tick)),
                ..*old(self)
            }),
    {
        let (live, closed) = roll(self.current_candle, tick);
        self.current_candle = Some(live);
        closed
    }

    /// Records the indicator values of a candle that has just closed and
    /// counts the candle.
    pub fn close_candle(&mut self, snapshot: IndicatorSnapshot)
        ensures
            *final(self) == (RsiBollingerStrategy {
                indicators: Some(snapshot),
                processed_candles: if old(self).processed_candles < usize::MAX {
                    (old(self).processed_candles + 1) as usize
                } else {
                    usize::MAX
                },
                ..*old(self)
            }),
    {
        self.indicators = Some(snapshot);
        if self.processed_candles < usize::MAX {
            self.processed_candles = self.processed_candles + 1;
        }
    }

    /// Decides on a tick from the indicators as they stand. While the
    /// strategy is cold every tick is held. With a position open the tracked
    /// high is ratcheted first and never lowered; the position is otherwise
    /// left as it is, and is never opened or closed here.
    pub fn evaluate(&mut self, tick: &Ticker) -> (signal: Signal)
        ensures
            signal == old(self).decision(*tick),
            *final(self) == (RsiBollingerStrategy {
                position: old(self).position_after(*tick),
                ..*old(self)
            }),
    {
        if self.processed_candles < self.warmup_period {
            return Signal::Hold;
        }
        let ind: IndicatorSnapshot = match self.indicators {
            Some(ind) => ind,
            None => {
                return Signal::Hold;
            },
        };
        match &mut self.position {
            None => {
                let oversold: Decimal = Decimal::new(RSI_OVERSOLD, 0);
                proof {
                    lemma_pow10_positive(28);
                }
                if self.thresholds.volatility_met(&ind.atr, &tick.price) && tick.price.lt(
                    &ind.bb_lower,
                ) && ind.rsi.lt(&oversold) && self.thresholds.obi_exceeded(
                    &tick.bid_qty,
                    &tick.ask_qty,
                ) {
                    Signal::Advice(Side::Buy, tick.price)
                } else {
                    Signal::Hold
                }
            },
            Some(position) => {
                let mut state_changed: bool = false;
                if tick.price.gt(&position.highest_price) {
                    position.highest_price = tick.price;
                    state_changed = true;
                }
                if self.thresholds.trailing_stop_fired(&tick.price, &position.highest_price) {
                    return Signal::Advice(Side::Sell, tick.price);
                }
                if self.thresholds.hard_stop_fired(&tick.price, &position.entry_price) {
                    return Signal::Advice(Side::Sell, tick.price);
                }
                if state_changed {
                    Signal::StateChanged
                } else {
                    Signal::Hold
                }
            },
        }
    }

    /// Handles a tick up to the point where outside work is due. The candle
    /// aggregator sees the tick first. Where the tick closed a candle,
    /// nothing is decided yet and the candle is handed out; otherwise the
    /// tick is evaluated at once.
    pub fn on_tick(&mut self, tick: &Ticker) -> (step: TickStep)
        ensures
            match closed_candle(old(self).current_candle, *tick) {
                Some(candle) => {
                    &&& step == TickStep::CandleClosed(candle)
                    &&& *final(self) == (RsiBollingerStrategy {
                        current_candle: Some(next_candle(old(self).current_candle, *tick)),
                        ..*old(self)
                    })
                },
                None => {
                    &&& step == TickStep::Decided(old(self).decision(*tick))
                    &&& *final(self) == (RsiBollingerStrategy {
                        current_candle: Some(next_candle(old(self).current_candle, *tick)),
                        position: old(self).position_after(*tick),
                        ..*old(self)
                    })
                },
            },
    {
        match self.roll_candle(tick) {
            Some(candle) => TickStep::CandleClosed(candle),
            None => TickStep::Decided(self.evaluate(tick)),
        }
    }

    /// Finishes a tick that closed a candle: records the indicators that
    /// were advanced by the closed candle, then evaluates the tick.
    pub fn on_candle_closed(&mut self, snapshot: IndicatorSnapshot, tick: &Ticker) -> (signal:
        Signal)
        ensures
            signal == old(self).with_indicators(snapshot).decision(*tick),
            *final(self) == (RsiBollingerStrategy {
                position: old(self).with_indicators(snapshot).position_after(*tick),
                ..old(self).with_indicators(snapshot)
            }),
    {
        self.close_candle(snapshot);
        self.evaluate(tick)
    }

    /// The strategy after the indicators of one more closed candle have
    /// been recorded.
    pub open spec fn with_indicators(self, snapshot: IndicatorSnapshot) -> RsiBollingerStrategy {
        RsiBollingerStrategy {
            indicators: Some(snapshot),
            processed_candles: if self.processed_candles < usize::MAX {
                (self.processed_candles + 1) as usize
            } else {
                usize::MAX
            },
            ..self
        }
    }

    /// Replaces the position: the only way one is opened or closed.
    pub fn update_position(&mut self, position: Option<Position>)
        ensures
            *final(self) == (RsiBollingerStrategy { position: position, ..*old(self) }),
    {
        self.position = position;
    }

    /// A copy of the position.
    pub fn get_position(&self) -> (p: Option<Position>)
        ensures
            p == self.position,
    {
        match &self.position {
            Some(position) => Some(position.duplicate()),
            None => None,
        }
    }
}

/// Default fraction under the tracked high at which the trailing stop
/// fires: 0.2 %.
pub open spec fn spec_default_trailing_callback() -> Decimal {
    Decimal::from_parts(2, 3)
}

/// Default fraction under the entry price at which the hard stop fires: 1 %.
pub open spec fn spec_default_hard_stop_pct() -> Decimal {
    Decimal::from_parts(1, 2)
}

/// Default fraction under the tracked high at which the trailing stop
/// fires: 0.2 %.
#[verifier::when_used_as_spec(spec_default_trailing_callback)]
pub fn default_trailing_callback() -> (d: Decimal)
    ensures
        d == spec_default_trailing_callback(),
{
    Decimal::new(2, 3)
}

/// Default fraction under the entry price at which the hard stop fires: 1 %.
#[verifier::when_used_as_spec(spec_default_hard_stop_pct)]
pub fn default_hard_stop_pct() -> (d: Decimal)
    ensures
        d == spec_default_hard_stop_pct(),
{
    Decimal::new(1, 2)
}


impl RsiBollingerStrategy {
    /// The strategy after one whole tick: the candle rolled, the indicators
    /// recorded where the tick closed a candle, the tick evaluated.
    pub open spec fn stepped(self, tick: Ticker, snapshot: IndicatorSnapshot) -> RsiBollingerStrategy {
        let rolled = RsiBollingerStrategy {
            current_candle: Some(next_candle(self.current_candle, tick)),
            ..self
        };
        let informed = if closed_candle(self.current_candle, tick) is Some {
            rolled.with_indicators(snapshot)
        } else {
            rolled
        };
        RsiBollingerStrategy { position: informed.position_after(tick), ..informed }
    }

    /// The strategy after a sequence of ticks, `snapshots[i]` being what the
    /// indicator engine reports if `ticks[i]` closes a candle.
    pub open spec fn run(
        self,
        ticks: Seq<Ticker>,
        snapshots: Seq<IndicatorSnapshot>,
    ) -> RsiBollingerStrategy
        decreases ticks.len(),
    {
        if ticks.len() == 0 {
            self
        } else {
            self.run(ticks.drop_last(), snapshots.drop_last()).stepped(
                ticks.last(),
                snapshots.last(),
            )
        }
    }

    /// While the strategy is cold, every tick is held and nothing about the
    /// position changes, whatever the price.
    pub proof fn lemma_cold_holds(self, tick: Ticker)
        requires
            self.processed_candles < self.warmup_period,
        ensures
            self.decision(tick) == Signal::Hold,
            self.position_after(tick) == self.position,
    {
    }

    /// Evaluating a tick never lowers the tracked high of an open position,
    /// leaves the rest of the position alone, and neither opens nor closes
    /// one.
    pub proof fn lemma_evaluation_ratchets(self, tick: Ticker)
        ensures
            self.position_after(tick) is Some <==> self.position is Some,
            self.position matches Some(before) ==> {
                let after = self.position_after(tick)->0;
                &&& after.highest_price@ >= before.highest_price@
                &&& self.is_warm() ==> after.highest_price@ >= tick.price@
                &&& after.symbol == before.symbol
                &&& after.quantity == before.quantity
                &&& after.entry_price == before.entry_price
                &&& after.unrealized_pnl == before.unrealized_pnl
            },
    {
    }

    /// A whole tick never lowers the tracked high either, whatever the
    /// indicators say and wherever the tick's time falls.
    pub proof fn lemma_step_ratchets(self, tick: Ticker, snapshot: IndicatorSnapshot)
        ensures
            self.stepped(tick, snapshot).position is Some <==> self.position is Some,
            self.position matches Some(before) ==> {
                let after = self.stepped(tick, snapshot).position->0;
                &&& after.highest_price@ >= before.highest_price@
                &&& after.symbol == before.symbol
                &&& after.quantity == before.quantity
                &&& after.entry_price == before.entry_price
            },
            self.stepped(tick, snapshot).thresholds == self.thresholds,
            self.stepped(tick, snapshot).symbol == self.symbol,
            self.stepped(tick, snapshot).warmup_period == self.warmup_period,
    {
    }

    /// Over any sequence of ticks, in any order of timestamps and prices,
    /// the strategy by itself neither opens nor closes a position, and the
    /// tracked high of an open one ends no lower than it began.
    pub proof fn lemma_run_ratchets(self, ticks: Seq<Ticker>, snapshots: Seq<IndicatorSnapshot>)
        ensures
            self.run(ticks, snapshots).position is Some <==> self.position is Some,
            self.position matches Some(before) ==> {
                let after = self.run(ticks, snapshots).position->0;
                &&& after.highest_price@ >= before.highest_price@
                &&& after.symbol == before.symbol
                &&& after.quantity == before.quantity
                &&& after.entry_price == before.entry_price
            },
        decreases ticks.len(),
    {
        if ticks.len() > 0 {
            self.lemma_run_ratchets(ticks.drop_last(), snapshots.drop_last());
            self.run(ticks.drop_last(), snapshots.drop_last()).lemma_step_ratchets(
                ticks.last(),
                snapshots.last(),
            );
        }
    }
}

impl RsiBollingerStrategy {
    /// A strategy that starts without a candle holds, after any ticks, the
    /// candle that those ticks fold into.
    pub proof fn lemma_run_folds_candles(
        self,
        ticks: Seq<Ticker>,
        snapshots: Seq<IndicatorSnapshot>,
    )
        requires
            self.current_candle is None,
        ensures
            self.run(ticks, snapshots).current_candle == fold_candles(ticks),
        decreases ticks.len(),
    {
        if ticks.len() > 0 {
            self.lemma_run_folds_candles(ticks.drop_last(), snapshots.drop_last());
        }
    }

    /// What `on_tick` leaves, followed where it handed out a candle by what
    /// `on_candle_closed` leaves, is one whole tick.
    pub proof fn lemma_two_calls_make_a_step(self, tick: Ticker, snapshot: IndicatorSnapshot)
        ensures
            ({
                let rolled = RsiBollingerStrategy {
                    current_candle: Some(next_candle(self.current_candle, tick)),
                    ..self
                };
                let informed = rolled.with_indicators(snapshot);
                &&& closed_candle(self.current_candle, tick) is None ==> self.stepped(
                    tick,
                    snapshot,
                ) == (RsiBollingerStrategy { position: self.position_after(tick), ..rolled })
                &&& closed_candle(self.current_candle, tick) is Some ==> self.stepped(
                    tick,
                    snapshot,
                ) == (RsiBollingerStrategy {
                    position: informed.position_after(tick),
                    ..informed
                })
            }),
    {
    }

    /// A whole tick counts a candle and records its indicators exactly
    /// where the tick closed the live candle; the counter stops at the
    /// largest number it can hold.
    pub proof fn lemma_step_counts_closed_candles(self, tick: Ticker, snapshot: IndicatorSnapshot)
        ensures
            self.stepped(tick, snapshot).current_candle == Some(
                next_candle(self.current_candle, tick),
            ),
            closed_candle(self.current_candle, tick) is Some ==> {
                &&& self.stepped(tick, snapshot).indicators == Some(snapshot)
                &&& self.processed_candles < usize::MAX ==> self.stepped(
                    tick,
                    snapshot,
                ).processed_candles == self.processed_candles + 1
                &&& self.processed_candles == usize::MAX ==> self.stepped(
                    tick,
                    snapshot,
                ).processed_candles == usize::MAX
            },
            closed_candle(self.current_candle, tick) is None ==> {
                &&& self.stepped(tick, snapshot).indicators == self.indicators
                &&& self.stepped(tick, snapshot).processed_candles == self.processed_candles
            },
    {
    }
}

} // verus!
