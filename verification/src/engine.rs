//! Turning advice into an exchange-legal order, and order results into the
//! position. An order is sized down to the lot step, checked against the
//! notional floor, and priced as a limit that gives way by a fixed slippage
//! in the direction that makes it marketable. The position changes only on
//! a confirmed fill.

use crate::config::AppConfig;
use crate::decimal::{
    compare_products, floor_ratio, lemma_pow10_positive, lemma_product_wide,
    lemma_unfit_stays_unfit, lemma_view_wide,
    mantissa_product, nearest_even_ratio, pow10, ratio_fits, unit, Decimal,
};
use crate::precision::{price_fits, steps, try_normalize_price};
use crate::rounding::{floor_div, lemma_floor_div_common_factor, nearest_even_div, round_to_step};
use crate::strategy::{IndicatorSnapshot, RsiBollingerStrategy};
use crate::types::{Position, Side, Signal, Ticker};
use vstd::prelude::*;

verus! {

/// The numbers that size and price an order.
#[derive(Debug, Clone, Copy)]
pub struct OrderSizing {
    /// Quote-currency amount committed to one entry.
    pub budget: Decimal,
    pub step_size: Decimal,
    pub tick_size: Decimal,
    /// Least `quantity * price` worth sending.
    pub min_notional: Decimal,
    /// Fraction by which the limit price gives way.
    pub slippage: Decimal,
}

/// Default notional floor: 5.5 quote units.
pub open spec fn spec_default_min_notional() -> Decimal {
    Decimal::from_parts(55, 1)
}

/// Default slippage: 0.1 %.
pub open spec fn spec_default_slippage() -> Decimal {
    Decimal::from_parts(1, 3)
}

/// Default notional floor: 5.5 quote units.
#[verifier::when_used_as_spec(spec_default_min_notional)]
pub fn default_min_notional() -> (d: Decimal)
    ensures
        d == spec_default_min_notional(),
{
    Decimal::new(55, 1)
}

/// Default slippage: 0.1 %.
#[verifier::when_used_as_spec(spec_default_slippage)]
pub fn default_slippage() -> (d: Decimal)
    ensures
        d == spec_default_slippage(),
{
    Decimal::new(1, 3)
}

/// An order ready to be sent: immediate-or-cancel, always with a limit.
#[derive(Debug, Clone)]
pub struct OrderRequest {
    pub symbol: String,
    pub side: Side,
    pub quantity: Decimal,
    /// Reference price with slippage, on the tick grid.
    pub limit_price: Decimal,
    /// Reference price on the tick grid, without slippage: the price of a
    /// simulated fill.
    pub reference_price: Decimal,
}

/// Why no order is sent although nothing is wrong.
#[derive(Debug, Clone, Copy, PartialEq, Eq, Structural)]
pub enum SkipReason {
    /// An exit was advised with nothing held.
    NoPosition,
    /// The quantity is zero once cut down to the lot step.
    ZeroQuantity,
    /// `quantity * price` is under the notional floor.
    BelowMinNotional,
}

/// What is to be done about an advice.
#[derive(Debug, Clone)]
pub enum OrderPlan {
    Skip(SkipReason),
    Submit(OrderRequest),
}

/// Why an advice cannot be planned at all.
#[derive(Debug, Clone, Copy, PartialEq, Eq, Structural)]
pub enum PlanError {
    /// The reference price is zero or negative.
    InvalidPrice,
    /// The lot step is negative.
    InvalidStep,
    /// A number on the way does not fit the machine's integers.
    Overflow,
}

impl OrderSizing {
    /// Sizing from the settings, with the default floor and slippage.
    pub fn from_config(config: &AppConfig) -> (s: OrderSizing)
        ensures
            s.budget == config.order_size_usdt,
            s.step_size == config.symbol_step_size,
            s.tick_size == config.symbol_tick_size,
            s.min_notional == spec_default_min_notional(),
            s.slippage == spec_default_slippage(),
    {
        OrderSizing {
            budget: config.order_size_usdt,
            step_size: config.symbol_step_size,
            tick_size: config.symbol_tick_size,
            min_notional: default_min_notional(),
            slippage: default_slippage(),
        }
    }

    /// Whole lot steps in the order: for an entry as many as the budget
    /// buys at `price`, for an exit as many as are held.
    pub open spec fn whole_steps(self, side: Side, price: Decimal, held: Decimal) -> int {
        match side {
            Side::Buy => floor_div(self.budget@ * unit(), price@ * self.step_size@),
            Side::Sell => floor_div(held@, self.step_size@),
        }
    }

    /// Whether the quantity can be computed within the machine's limits.
    pub open spec fn quantity_fits(self, side: Side, price: Decimal, held: Decimal) -> bool {
        &&& match side {
            Side::Buy => ratio_fits(
                self.budget.spec_mantissa(),
                self.budget.spec_scale(),
                price.spec_mantissa() * self.step_size.spec_mantissa(),
                price.spec_scale() + self.step_size.spec_scale(),
            ),
            Side::Sell => ratio_fits(
                held.spec_mantissa(),
                held.spec_scale(),
                self.step_size.spec_mantissa(),
                self.step_size.spec_scale(),
            ),
        }
        &&& Decimal::representable(
            self.whole_steps(side, price, held) * self.step_size.spec_mantissa(),
            self.step_size.spec_scale(),
        )
    }

    /// The order's quantity: whole steps, at the scale of the step.
    pub open spec fn quantity(self, side: Side, price: Decimal, held: Decimal) -> Decimal {
        Decimal::from_parts(
            self.whole_steps(side, price, held) * self.step_size.spec_mantissa(),
            self.step_size.spec_scale(),
        )
    }

    /// Whole units of `10^-places` that the budget buys at `price`.
    pub open spec fn raw_units(self, price: Decimal, places: nat) -> int {
        floor_div(self.budget@ * unit(), price@ * pow10((28 - places) as nat))
    }

    /// Whether the quantity that the budget buys can be computed and held
    /// with `places` decimal places.
    pub open spec fn raw_fits(self, price: Decimal, places: nat) -> bool {
        &&& ratio_fits(
            self.budget.spec_mantissa(),
            self.budget.spec_scale(),
            price.spec_mantissa(),
            price.spec_scale() + places,
        )
        &&& Decimal::representable(self.raw_units(price, places), places)
    }

    /// The largest number of decimal places, at most `from`, with which the
    /// quantity that the budget buys can be held.
    pub open spec fn finest_places(self, price: Decimal, from: nat) -> Option<nat>
        decreases from,
    {
        if self.raw_fits(price, from) {
            Some(from)
        } else if from == 0 {
            None
        } else {
            self.finest_places(price, (from - 1) as nat)
        }
    }

    /// Whether the order's quantity can be computed within the machine's
    /// limits, with or without a lot step.
    pub open spec fn sized_fits(self, side: Side, price: Decimal, held: Decimal) -> bool {
        if self.step_size@ == 0 {
            side == Side::Sell || self.finest_places(price, 28) is Some
        } else {
            self.quantity_fits(side, price, held)
        }
    }

    /// The order's quantity. With a lot step: whole steps. Without one: for
    /// an exit what is held, for an entry what the budget buys, cut off
    /// after as many decimal places as can be held and never rounded up.
    pub open spec fn sized(self, side: Side, price: Decimal, held: Decimal) -> Decimal {
        if self.step_size@ == 0 {
            match side {
                Side::Sell => held,
                Side::Buy => Decimal::from_parts(
                    self.raw_units(price, self.finest_places(price, 28)->0),
                    self.finest_places(price, 28)->0,
                ),
            }
        } else {
            self.quantity(side, price, held)
        }
    }

    /// Mantissa of the slippage factor, at the scale of the slippage:
    /// `1 + slippage` for a buy, `1 - slippage` for a sell.
    pub open spec fn factor_mantissa(self, side: Side) -> int {
        match side {
            Side::Buy => pow10(self.slippage.spec_scale()) + self.slippage.spec_mantissa(),
            Side::Sell => pow10(self.slippage.spec_scale()) - self.slippage.spec_mantissa(),
        }
    }

    /// The slippage factor as a view.
    pub open spec fn factor(self, side: Side) -> int {
        match side {
            Side::Buy => unit() + self.slippage@,
            Side::Sell => unit() - self.slippage@,
        }
    }

    /// Whole ticks in the limit price: the nearest to the slipped price.
    pub open spec fn limit_ticks(self, side: Side, price: Decimal) -> int {
        nearest_even_div(price@ * self.factor(side), self.tick_size@ * unit())
    }

    /// Whether the two prices of the order can be computed within the
    /// machine's limits.
    pub open spec fn prices_fit(self, side: Side, price: Decimal) -> bool {
        let f = self.factor_mantissa(side);
        &&& Decimal::representable(f, self.slippage.spec_scale())
        &&& if self.tick_size@ == 0 {
            Decimal::representable(
                price.spec_mantissa() * f,
                price.spec_scale() + self.slippage.spec_scale(),
            )
        } else {
            &&& price_fits(price, self.tick_size)
            &&& ratio_fits(
                price.spec_mantissa() * f,
                price.spec_scale() + self.slippage.spec_scale(),
                self.tick_size.spec_mantissa(),
                self.tick_size.spec_scale(),
            )
            &&& Decimal::representable(
                self.limit_ticks(side, price) * self.tick_size.spec_mantissa(),
                self.tick_size.spec_scale(),
            )
        }
    }

    /// The limit price: the slipped price itself where the tick is zero,
    /// else whole ticks at the scale of the tick.
    pub open spec fn limit_price(self, side: Side, price: Decimal) -> Decimal {
        if self.tick_size@ == 0 {
            Decimal::from_parts(
                price.spec_mantissa() * self.factor_mantissa(side),
                price.spec_scale() + self.slippage.spec_scale(),
            )
        } else {
            Decimal::from_parts(
                self.limit_ticks(side, price) * self.tick_size.spec_mantissa(),
                self.tick_size.spec_scale(),
            )
        }
    }

    /// The reference price on the tick grid.
    pub open spec fn reference_price(self, price: Decimal) -> Decimal {
        if self.tick_size@ == 0 {
            price
        } else {
            Decimal::from_parts(
                nearest_even_div(price@, self.tick_size@) * self.tick_size.spec_mantissa(),
                self.tick_size.spec_scale(),
            )
        }
    }

    /// What is to be done about an advice to trade `side` at `price`, with
    /// `held` the quantity of the open position, if there is one.
    pub open spec fn plan(
        self,
        symbol: String,
        side: Side,
        price: Decimal,
        held: Option<Decimal>,
    ) -> Result<OrderPlan, PlanError> {
        let have = match held {
            Some(quantity) => quantity,
            None => price,
        };
        if price@ <= 0 {
            Err(PlanError::InvalidPrice)
        } else if self.step_size@ < 0 {
            Err(PlanError::InvalidStep)
        } else if side == Side::Sell && held is None {
            Ok(OrderPlan::Skip(SkipReason::NoPosition))
        } else if !self.sized_fits(side, price, have) {
            Err(PlanError::Overflow)
        } else if self.sized(side, price, have)@ <= 0 {
            Ok(OrderPlan::Skip(SkipReason::ZeroQuantity))
        } else if self.sized(side, price, have)@ * price@ < self.min_notional@ * unit() {
            Ok(OrderPlan::Skip(SkipReason::BelowMinNotional))
        } else if !self.prices_fit(side, price) {
            Err(PlanError::Overflow)
        } else {
            Ok(
                OrderPlan::Submit(
                    OrderRequest {
                        symbol,
                        side,
                        quantity: self.sized(side, price, have),
                        limit_price: self.limit_price(side, price),
                        reference_price: self.reference_price(price),
                    },
                ),
            )
        }
    }

    /// The quantity of the order, or `None` where it cannot be computed
    /// within the machine's limits.
    fn size_quantity(&self, side: Side, price: &Decimal, held: &Decimal) -> (r: Option<Decimal>)
        requires
            price@ > 0,
            self.step_size@ > 0,
        ensures
            r is Some <==> self.quantity_fits(side, *price, *held),
            r matches Some(q) ==> q == self.quantity(side, *price, *held) && q@ == self.whole_steps(
                side,
                *price,
                *held,
            ) * self.step_size@,
    {
        match side {
            Side::Buy => {
                let den_scale: u32 = price.scale() + self.step_size.scale();
                let den: i128 = match mantissa_product(price, &self.step_size) {
                    Some(den) => den,
                    None => {
                        proof {
                            lemma_unfit_stays_unfit(
                                price.spec_mantissa() * self.step_size.spec_mantissa(),
                                if self.budget.spec_scale() > den_scale {
                                    (self.budget.spec_scale() - den_scale) as nat
                                } else {
                                    0
                                },
                            );
                        }
                        return None;
                    },
                };
                let bm: i128 = self.budget.mantissa();
                proof {
                    lemma_view_wide(self.budget);
                    lemma_product_wide(*price, self.step_size);
                    lemma_pow10_positive((56 - den_scale) as nat);
                    let k = pow10((56 - den_scale) as nat) as int;
                    let p = price@;
                    let s = self.step_size@;
                    assert(p * s > 0) by (nonlinear_arith)
                        requires
                            p > 0,
                            s > 0,
                    ;
                    assert(den != 0) by (nonlinear_arith)
                        requires
                            den * k > 0,
                    ;
                }
                match floor_ratio(bm, self.budget.scale(), den, den_scale) {
                    Some(k) => steps(k, &self.step_size),
                    None => None,
                }
            },
            Side::Sell => {
                let sm: i128 = self.step_size.mantissa();
                let hm: i128 = held.mantissa();
                proof {
                    lemma_view_wide(*held);
                    lemma_view_wide(self.step_size);
                    lemma_pow10_positive(28);
                    lemma_pow10_positive((28 - self.step_size.spec_scale()) as nat);
                    lemma_floor_div_common_factor(held@, self.step_size@, unit());
                    assert(sm != 0) by (nonlinear_arith)
                        requires
                            sm * pow10((28 - self.step_size.spec_scale()) as nat) != 0,
                    ;
                }
                match floor_ratio(hm, held.scale(), sm, self.step_size.scale()) {
                    Some(k) => steps(k, &self.step_size),
                    None => None,
                }
            },
        }
    }
}


impl OrderSizing {
    /// What the budget buys at `price` where there is no lot step: the
    /// quotient cut off after the most decimal places that can be held.
    fn size_raw(&self, price: &Decimal) -> (r: Option<Decimal>)
        requires
            price@ > 0,
        ensures
            r is Some <==> self.finest_places(*price, 28) is Some,
            r matches Some(q) ==> {
                let places = self.finest_places(*price, 28)->0;
                &&& places <= 28
                &&& q == Decimal::from_parts(self.raw_units(*price, places), places)
                &&& q@ == self.raw_units(*price, places) * pow10((28 - places) as nat)
            },
    {
        let bm: i128 = self.budget.mantissa();
        let bs: u32 = self.budget.scale();
        let pm: i128 = price.mantissa();
        let ps: u32 = price.scale();
        proof {
            lemma_pow10_positive((28 - ps) as nat);
            assert(pm != 0) by (nonlinear_arith)
                requires
                    pm * pow10((28 - ps) as nat) > 0,
            ;
        }
        let mut places: u32 = 28;
        loop
            invariant
                places <= 28,
                ps <= 28,
                bs <= 28,
                pm != 0,
                bm == self.budget.spec_mantissa(),
                bs == self.budget.spec_scale(),
                pm == price.spec_mantissa(),
                ps == price.spec_scale(),
                self.budget.wf(),
                price.wf(),
                self.finest_places(*price, 28) == self.finest_places(*price, places as nat),
            decreases places,
        {
            proof {
                lemma_view_wide(self.budget);
                price.lemma_wf();
                crate::decimal::lemma_pow10_adds((28 - ps) as nat, (28 - places) as nat);
                assert(((28 - ps) as nat) + ((28 - places) as nat) == (56 - (ps + places)) as nat);
                let a = pow10((28 - ps) as nat) as int;
                let b = pow10((28 - places) as nat) as int;
                assert(pm * (a * b) == (pm * a) * b) by (nonlinear_arith);
            }
            match floor_ratio(bm, bs, pm, ps + places) {
                Some(k) => match Decimal::try_from_i128_with_scale(k, places) {
                    Some(q) => {
                        return Some(q);
                    },
                    None => {},
                },
                None => {},
            }
            if places == 0 {
                return None;
            }
            places = places - 1;
        }
    }

    /// The quantity of the order, with or without a lot step, or `None`
    /// where it cannot be computed within the machine's limits.
    fn size_order(&self, side: Side, price: &Decimal, held: &Decimal) -> (r: Option<Decimal>)
        requires
            price@ > 0,
            self.step_size@ >= 0,
        ensures
            r is Some <==> self.sized_fits(side, *price, *held),
            r matches Some(q) ==> q == self.sized(side, *price, *held),
    {
        if self.step_size.is_zero() {
            match side {
                Side::Sell => Some(*held),
                Side::Buy => self.size_raw(price),
            }
        } else {
            self.size_quantity(side, price, held)
        }
    }

    /// The limit price and the reference price of the order, or `None`
    /// where they cannot be computed within the machine's limits.
    fn price_order(&self, side: Side, price: &Decimal) -> (r: Option<(Decimal, Decimal)>)
        ensures
            r is Some <==> self.prices_fit(side, *price),
            r matches Some((limit, reference)) ==> {
                &&& limit == self.limit_price(side, *price)
                &&& reference == self.reference_price(*price)
                &&& reference@ == round_to_step(price@, self.tick_size@)
                &&& self.tick_size@ == 0 ==> limit@ * unit() == price@ * self.factor(side)
                &&& self.tick_size@ != 0 ==> limit@ == self.limit_ticks(side, *price)
                    * self.tick_size@
            },
    {
        let factor: Decimal = match side {
            Side::Buy => match self.slippage.one_plus() {
                Some(f) => f,
                None => {
                    return None;
                },
            },
            Side::Sell => match self.slippage.one_minus() {
                Some(f) => f,
                None => {
                    return None;
                },
            },
        };
        assert(factor@ == self.factor(side));
        assert(factor.spec_mantissa() == self.factor_mantissa(side));
        if self.tick_size.is_zero() {
            match price.checked_mul(&factor) {
                Some(limit) => Some((limit, *price)),
                None => None,
            }
        } else {
            let reference: Decimal = match try_normalize_price(*price, self.tick_size) {
                Some(reference) => reference,
                None => {
                    return None;
                },
            };
            let num_scale: u32 = price.scale() + factor.scale();
            let num: i128 = match mantissa_product(price, &factor) {
                Some(num) => num,
                None => {
                    proof {
                        lemma_unfit_stays_unfit(
                            price.spec_mantissa() * factor.spec_mantissa(),
                            if self.tick_size.spec_scale() > num_scale {
                                (self.tick_size.spec_scale() - num_scale) as nat
                            } else {
                                0
                            },
                        );
                    }
                    return None;
                },
            };
            let tm: i128 = self.tick_size.mantissa();
            proof {
                lemma_product_wide(*price, factor);
                lemma_view_wide(self.tick_size);
                lemma_pow10_positive((28 - self.tick_size.spec_scale()) as nat);
                assert(tm != 0) by (nonlinear_arith)
                    requires
                        tm * pow10((28 - self.tick_size.spec_scale()) as nat) != 0,
                ;
            }
            match nearest_even_ratio(num, num_scale, tm, self.tick_size.scale()) {
                Some(k) => match steps(k, &self.tick_size) {
                    Some(limit) => Some((limit, reference)),
                    None => None,
                },
                None => None,
            }
        }
    }

    /// Plans the order for an advice to trade `side` at the reference
    /// `price`. `held` is the quantity of the open position, if one is open.
    ///
    /// An entry is sized at as many whole lot steps as the budget buys, an
    /// exit at as many as are held; the quantity is never rounded up. With
    /// a lot step of zero an exit sells all that is held, and an entry buys
    /// what the budget buys, cut off after the last decimal place that can
    /// be held. No
    /// order is planned where the quantity comes to nothing or its notional
    /// is under the floor. The limit price is the reference price moved by
    /// the slippage, up for a buy and down for a sell, then to the nearest
    /// tick.
    pub fn plan_order(
        &self,
        symbol: String,
        side: Side,
        price: Decimal,
        held: Option<Decimal>,
    ) -> (r: Result<OrderPlan, PlanError>)
        ensures
            r == self.plan(symbol, side, price, held),
    {
        if !price.is_positive() {
            return Err(PlanError::InvalidPrice);
        }
        let zero: Decimal = Decimal::zero();
        if self.step_size.lt(&zero) {
            return Err(PlanError::InvalidStep);
        }
        let have: Decimal = match held {
            Some(quantity) => quantity,
            None => {
                match side {
                    Side::Sell => {
                        return Ok(OrderPlan::Skip(SkipReason::NoPosition));
                    },
                    Side::Buy => price,
                }
            },
        };
        let quantity: Decimal = match self.size_order(side, &price, &have) {
            Some(quantity) => quantity,
            None => {
                return Err(PlanError::Overflow);
            },
        };
        if !quantity.is_positive() {
            return Ok(OrderPlan::Skip(SkipReason::ZeroQuantity));
        }
        let one: Decimal = Decimal::one();
        if compare_products(&quantity, &price, &self.min_notional, &one) < 0 {
            return Ok(OrderPlan::Skip(SkipReason::BelowMinNotional));
        }
        match self.price_order(side, &price) {
            Some((limit_price, reference_price)) => Ok(
                OrderPlan::Submit(
                    OrderRequest { symbol, side, quantity, limit_price, reference_price },
                ),
            ),
            None => Err(PlanError::Overflow),
        }
    }
}


/// Price at which an order counts as filled: its limit when it went to the
/// exchange, its reference price when the fill is simulated.
pub open spec fn fill_price(request: OrderRequest, live: bool) -> Decimal {
    if live {
        request.limit_price
    } else {
        request.reference_price
    }
}

/// The position after an order has come back. Only a fill changes it: a
/// filled buy opens the position at the fill price, a filled sell closes it.
pub open spec fn settled(
    current: Option<Position>,
    request: OrderRequest,
    filled: bool,
    live: bool,
) -> Option<Position> {
    if !filled {
        current
    } else {
        match request.side {
            Side::Buy => Some(
                Position {
                    symbol: request.symbol,
                    quantity: request.quantity,
                    entry_price: fill_price(request, live),
                    unrealized_pnl: Decimal::from_parts(0, 0),
                    highest_price: fill_price(request, live),
                },
            ),
            Side::Sell => None,
        }
    }
}

/// The position after an order has come back: `current` unless the order
/// was filled.
pub fn settle(current: Option<Position>, request: &OrderRequest, filled: bool, live: bool) -> (r:
    Option<Position>)
    ensures
        r == settled(current, *request, filled, live),
{
    if !filled {
        return current;
    }
    match request.side {
        Side::Buy => {
            let price: Decimal = if live {
                request.limit_price
            } else {
                request.reference_price
            };
            Some(
                Position {
                    symbol: request.symbol.clone(),
                    quantity: request.quantity,
                    entry_price: price,
                    unrealized_pnl: Decimal::zero(),
                    highest_price: price,
                },
            )
        },
        Side::Sell => None,
    }
}

/// Commits the result of an order to the strategy. Returns whether the
/// position changed hands and so has to be persisted: exactly on a fill.
pub fn commit(
    strategy: &mut RsiBollingerStrategy,
    request: &OrderRequest,
    filled: bool,
    live: bool,
) -> (persist: bool)
    ensures
        persist == filled,
        *final(strategy) == (RsiBollingerStrategy {
            position: settled(old(strategy).position, *request, filled, live),
            ..*old(strategy)
        }),
{
    if filled {
        let next = settle(None, request, true, live);
        strategy.update_position(next);
    }
    filled
}

/// What the decision loop does next about a signal.
#[derive(Debug, Clone)]
pub enum EngineAction {
    /// Nothing to do.
    Idle,
    /// The tracked high moved: write the position to storage.
    Persist,
    /// Advice that comes to no order.
    Skipped(SkipReason),
    /// Send this order, then `commit` its result.
    Place(OrderRequest),
}

/// What a signal calls for, given the position held.
pub open spec fn reaction(
    sizing: OrderSizing,
    position: Option<Position>,
    signal: Signal,
    symbol: String,
) -> Result<EngineAction, PlanError> {
    match signal {
        Signal::Hold => Ok(EngineAction::Idle),
        Signal::StateChanged => Ok(EngineAction::Persist),
        Signal::Advice(side, price) => {
            let held = match position {
                Some(p) => Some(p.quantity),
                None => None,
            };
            match sizing.plan(symbol, side, price, held) {
                Ok(OrderPlan::Skip(reason)) => Ok(EngineAction::Skipped(reason)),
                Ok(OrderPlan::Submit(request)) => Ok(EngineAction::Place(request)),
                Err(e) => Err(e),
            }
        },
    }
}

/// Decides what to do about the signal of a tick. Changes nothing: the
/// position moves only when `commit` is told of a fill.
pub fn react(
    sizing: &OrderSizing,
    strategy: &RsiBollingerStrategy,
    signal: &Signal,
    tick: &Ticker,
) -> (r: Result<EngineAction, PlanError>)
    ensures
        r == reaction(*sizing, strategy.position, *signal, tick.symbol),
{
    match signal {
        Signal::Hold => Ok(EngineAction::Idle),
        Signal::StateChanged => Ok(EngineAction::Persist),
        Signal::Advice(side, price) => {
            let held: Option<Decimal> = match &strategy.position {
                Some(p) => Some(p.quantity),
                None => None,
            };
            match sizing.plan_order(tick.symbol.clone(), *side, *price, held) {
                Ok(OrderPlan::Skip(reason)) => Ok(EngineAction::Skipped(reason)),
                Ok(OrderPlan::Submit(request)) => Ok(EngineAction::Place(request)),
                Err(e) => Err(e),
            }
        },
    }
}

/// The record kept in storage: the open position, if any.
#[derive(Debug, Clone)]
pub struct EngineState {
    pub active_position: Option<Position>,
}

/// Starts the strategy from what storage held. Where nothing readable was
/// found the strategy stays as it is: flat, on a fresh start.
pub fn restore(strategy: &mut RsiBollingerStrategy, stored: Option<EngineState>)
    ensures
        *final(strategy) == (RsiBollingerStrategy {
            position: match stored {
                Some(state) => state.active_position,
                None => old(strategy).position,
            },
            ..*old(strategy)
        }),
{
    match stored {
        Some(state) => strategy.update_position(state.active_position),
        None => {},
    }
}

/// The record to write to storage for the strategy as it stands.
pub fn snapshot_state(strategy: &RsiBollingerStrategy) -> (state: EngineState)
    ensures
        state.active_position == strategy.position,
{
    EngineState { active_position: strategy.get_position() }
}

/// One thing that happens to the strategy in the decision loop.
pub enum EngineEvent {
    /// A tick, with what the indicator engine reports if it closes a candle.
    Tick(Ticker, IndicatorSnapshot),
    /// An order came back, filled or not.
    OrderResult(OrderRequest, bool, bool),
}

/// Whether the event is an order that was filled.
pub open spec fn is_fill(event: EngineEvent) -> bool {
    event matches EngineEvent::OrderResult(_, filled, _) && filled
}

/// The strategy after one event.
pub open spec fn after_event(strategy: RsiBollingerStrategy, event: EngineEvent) -> RsiBollingerStrategy {
    match event {
        EngineEvent::Tick(tick, snapshot) => strategy.stepped(tick, snapshot),
        EngineEvent::OrderResult(request, filled, live) => RsiBollingerStrategy {
            position: settled(strategy.position, request, filled, live),
            ..strategy
        },
    }
}

/// The strategy after a sequence of events.
pub open spec fn replay(strategy: RsiBollingerStrategy, events: Seq<EngineEvent>) -> RsiBollingerStrategy
    decreases events.len(),
{
    if events.len() == 0 {
        strategy
    } else {
        after_event(replay(strategy, events.drop_last()), events.last())
    }
}

/// An event that opens or closes a position is a filled order: a buy where
/// it opens one, a sell where it closes one.
pub proof fn lemma_only_fills_move_position(strategy: RsiBollingerStrategy, event: EngineEvent)
    ensures
        (after_event(strategy, event).position is Some) != (strategy.position is Some)
            ==> is_fill(event),
        strategy.position is None && after_event(strategy, event).position is Some ==> (event
            matches EngineEvent::OrderResult(request, _, _) && request.side == Side::Buy),
        strategy.position is Some && after_event(strategy, event).position is None ==> (event
            matches EngineEvent::OrderResult(request, _, _) && request.side == Side::Sell),
        !is_fill(event) && strategy.position is Some ==> {
            &&& after_event(strategy, event).position is Some
            &&& after_event(strategy, event).position->0.quantity == strategy.position->0.quantity
            &&& after_event(strategy, event).position->0.entry_price
                == strategy.position->0.entry_price
            &&& after_event(strategy, event).position->0.highest_price@
                >= strategy.position->0.highest_price@
        },
{
    match event {
        EngineEvent::Tick(tick, snapshot) => {
            strategy.lemma_step_ratchets(tick, snapshot);
        },
        EngineEvent::OrderResult(request, filled, live) => {},
    }
}

/// Over any sequence of events without a filled order, a flat strategy
/// stays flat and an open position stays open, with its quantity and entry
/// price, and its tracked high no lower than before.
pub proof fn lemma_no_fill_no_change(strategy: RsiBollingerStrategy, events: Seq<EngineEvent>)
    requires
        forall|i: int| 0 <= i < events.len() ==> !is_fill(#[trigger] events[i]),
    ensures
        replay(strategy, events).position is Some <==> strategy.position is Some,
        strategy.position is Some ==> {
            &&& replay(strategy, events).position->0.quantity == strategy.position->0.quantity
            &&& replay(strategy, events).position->0.entry_price
                == strategy.position->0.entry_price
            &&& replay(strategy, events).position->0.highest_price@
                >= strategy.position->0.highest_price@
        },
    decreases events.len(),
{
    if events.len() > 0 {
        let before = events.drop_last();
        assert forall|i: int| 0 <= i < before.len() implies !is_fill(#[trigger] before[i]) by {
            assert(before[i] == events[i]);
        }
        lemma_no_fill_no_change(strategy, before);
        assert(!is_fill(events[events.len() - 1]));
        lemma_only_fills_move_position(replay(strategy, before), events.last());
    }
}

/// The finest number of places, where there is one, is one at which the
/// raw quantity fits, and no finer one up to `from` does.
pub proof fn lemma_finest_places(sizing: OrderSizing, price: Decimal, from: nat)
    ensures
        sizing.finest_places(price, from) matches Some(places) ==> {
            &&& places <= from
            &&& sizing.raw_fits(price, places)
            &&& forall|finer: nat| places < finer <= from ==> !sizing.raw_fits(price, finer)
        },
        sizing.finest_places(price, from) is None ==> forall|places: nat|
            places <= from ==> !sizing.raw_fits(price, places),
    decreases from,
{
    if !sizing.raw_fits(price, from) && from > 0 {
        lemma_finest_places(sizing, price, (from - 1) as nat);
    }
}

/// An entry never commits more than the budget: the quantity times the
/// reference price is within it. An exit never sells more than is held.
/// Every order has a positive quantity and a notional at or over the floor.
pub proof fn lemma_order_within_limits(
    sizing: OrderSizing,
    symbol: String,
    side: Side,
    price: Decimal,
    held: Option<Decimal>,
)
    requires
        sizing.plan(symbol, side, price, held) matches Ok(OrderPlan::Submit(_)),
        price.wf(),
        sizing.step_size.wf(),
    ensures
        sizing.plan(symbol, side, price, held) matches Ok(OrderPlan::Submit(request)) && {
            &&& request.quantity@ > 0
            &&& request.quantity@ * price@ >= sizing.min_notional@ * unit()
            &&& request.side == side
            &&& side == Side::Buy ==> request.quantity@ * price@ <= sizing.budget@ * unit()
            &&& side == Side::Sell ==> held is Some && request.quantity@ <= held->0@
        },
{
    let have = match held {
        Some(quantity) => quantity,
        None => price,
    };
    let q = sizing.sized(side, price, have);
    let p = price@;
    let b = sizing.budget@ * unit();
    if sizing.step_size@ == 0 {
        if side == Side::Buy {
            lemma_finest_places(sizing, price, 28);
            let places = sizing.finest_places(price, 28)->0;
            let k = sizing.raw_units(price, places);
            Decimal::lemma_from_parts(k, places);
            let f = pow10((28 - places) as nat) as int;
            lemma_pow10_positive((28 - places) as nat);
            assert(p * f > 0) by (nonlinear_arith)
                requires
                    p > 0,
                    f > 0,
            ;
            crate::rounding::lemma_floor_div_bounds(b, p * f);
            assert((k * f) * p == k * (p * f)) by (nonlinear_arith);
        }
    } else {
        let k = sizing.whole_steps(side, price, have);
        let sm = sizing.step_size.spec_mantissa();
        sizing.step_size.lemma_wf();
        Decimal::lemma_from_parts(k * sm, sizing.step_size.spec_scale());
        let f = pow10((28 - sizing.step_size.spec_scale()) as nat) as int;
        let s = sizing.step_size@;
        assert(q@ == k * s) by (nonlinear_arith)
            requires
                q@ == (k * sm) * f,
                s == sm * f,
        ;
        match side {
            Side::Buy => {
                assert(p * s > 0) by (nonlinear_arith)
                    requires
                        p > 0,
                        s > 0,
                ;
                crate::rounding::lemma_floor_div_bounds(b, p * s);
                assert((k * s) * p == k * (p * s)) by (nonlinear_arith);
            },
            Side::Sell => {
                crate::rounding::lemma_floor_div_bounds(have@, s);
            },
        }
    }
}

/// The limit price of an order lies within half a tick of the reference
/// price moved by the slippage: up for a buy, down for a sell.
pub proof fn lemma_limit_price_near_slipped(
    sizing: OrderSizing,
    symbol: String,
    side: Side,
    price: Decimal,
    held: Option<Decimal>,
)
    requires
        sizing.plan(symbol, side, price, held) matches Ok(OrderPlan::Submit(_)),
        sizing.tick_size.wf(),
        sizing.tick_size@ != 0,
    ensures
        sizing.plan(symbol, side, price, held) matches Ok(OrderPlan::Submit(request)) && 2
            * crate::rounding::abs(request.limit_price@ * unit() - price@ * sizing.factor(side))
            <= crate::rounding::abs(sizing.tick_size@) * unit(),
{
    let t = sizing.tick_size@;
    let tm = sizing.tick_size.spec_mantissa();
    let k = sizing.limit_ticks(side, price);
    let limit = sizing.limit_price(side, price);
    sizing.tick_size.lemma_wf();
    Decimal::lemma_from_parts(k * tm, sizing.tick_size.spec_scale());
    let f = pow10((28 - sizing.tick_size.spec_scale()) as nat) as int;
    lemma_pow10_positive(28);
    assert(limit@ == k * t) by (nonlinear_arith)
        requires
            limit@ == (k * tm) * f,
            t == tm * f,
    ;
    let u = unit();
    assert(t * u != 0) by (nonlinear_arith)
        requires
            t != 0,
            u > 0,
    ;
    crate::rounding::lemma_nearest_even_error(price@ * sizing.factor(side), t * u);
    assert((k * t) * u == k * (t * u)) by (nonlinear_arith);
    assert(crate::rounding::abs(t * u) == crate::rounding::abs(t) * u) by (nonlinear_arith)
        requires
            u > 0,
    ;
}

} // verus!
