//! What is decided on this side of the exchange's wire: the parameters of
//! an order, whether an answer counts as a fill, the lot and tick sizes read
//! from the exchange's filters, wallet balances, and the tick made from a
//! book update. Sending and receiving stay with the program around the
//! library.

use crate::decimal::Decimal;
use crate::engine::OrderRequest;
use crate::precision::{price_fits, quantity_fits, try_normalize_price, try_normalize_quantity};
use crate::rounding::{floor_to_step, round_to_step};
use crate::text::{decimal_from_text, decimal_text, format_decimal, parse_decimal};
use crate::types::{OrderResponse, Side, Ticker};
use vstd::prelude::*;

verus! {

/// Whether two texts are the same.
pub fn same_text(a: &str, b: &str) -> (r: bool)
    ensures
        r == (a@ == b@),
{
    let x: String = a.to_owned();
    let y: String = b.to_owned();
    x == y
}

/// What can go wrong on this side of the wire.
#[derive(Debug, Clone)]
pub enum ExchangeError {
    /// The exchange does not list the symbol.
    SymbolNotFound,
    /// The wallet does not hold the asset.
    AssetNotFound,
    /// A balance that is not a decimal.
    BadBalance,
    /// The order was answered but not filled; the status is the venue's.
    NotFilled(String),
}

/// Best bid and ask of the order book, as the venue streams them.
#[derive(Debug, Clone, Copy)]
pub struct BookTickerEvent {
    pub best_bid_price: Decimal,
    pub best_bid_qty: Decimal,
    pub best_ask_price: Decimal,
    pub best_ask_qty: Decimal,
    pub event_time: u64,
}

/// One trade, as the venue streams it.
#[derive(Debug, Clone)]
pub struct BinanceTradeEvent {
    pub event_type: String,
    pub event_time: u64,
    pub symbol: String,
    pub price: Decimal,
    pub quantity: Decimal,
}

/// The tick for a book update: its price is the exact middle of best bid
/// and best ask. `None` where that middle cannot be held; such an update
/// is dropped like a malformed one.
pub fn to_ticker(symbol: &String, event: &BookTickerEvent) -> (r: Option<Ticker>)
    ensures
        r is Some <==> event.best_bid_price.midpoint_fits(event.best_ask_price),
        r matches Some(tick) ==> {
            &&& 2 * tick.price@ == event.best_bid_price@ + event.best_ask_price@
            &&& tick.price == event.best_bid_price.midpoint_of(event.best_ask_price)
            &&& tick.symbol == *symbol
            &&& tick.bid_price == event.best_bid_price
            &&& tick.ask_price == event.best_ask_price
            &&& tick.bid_qty == event.best_bid_qty
            &&& tick.ask_qty == event.best_ask_qty
            &&& tick.timestamp == event.event_time
        },
{
    match event.best_bid_price.midpoint(&event.best_ask_price) {
        Some(price) => Some(
            Ticker {
                symbol: symbol.clone(),
                price,
                bid_price: event.best_bid_price,
                ask_price: event.best_ask_price,
                bid_qty: event.best_bid_qty,
                ask_qty: event.best_ask_qty,
                timestamp: event.event_time,
            },
        ),
        None => None,
    }
}

/// Whether a status of the venue counts as a fill: filled, or filled in
/// part. Every other status is a failure.
pub open spec fn counts_as_filled(status: Seq<char>) -> bool {
    status == "FILLED"@ || status == "PARTIALLY_FILLED"@
}

/// Whether a status of the venue counts as a fill.
pub fn is_filled(status: &str) -> (r: bool)
    ensures
        r == counts_as_filled(status@),
{
    same_text(status, "FILLED") || same_text(status, "PARTIALLY_FILLED")
}

/// The answer to an order as the rest of the system sees it: the order
/// where its status counts as a fill, else a failure that carries the
/// status.
pub fn order_outcome(id: String, symbol: String, status: String) -> (r: Result<
    OrderResponse,
    ExchangeError,
>)
    ensures
        counts_as_filled(status@) ==> r == Ok::<OrderResponse, ExchangeError>(
            OrderResponse { id, symbol, status },
        ),
        !counts_as_filled(status@) ==> r == Err::<OrderResponse, ExchangeError>(
            ExchangeError::NotFilled(status),
        ),
{
    if is_filled(status.as_str()) {
        Ok(OrderResponse { id, symbol, status })
    } else {
        Err(ExchangeError::NotFilled(status))
    }
}

/// A list of parameters as plain text.
pub open spec fn pairs_view(pairs: Seq<(String, String)>) -> Seq<(Seq<char>, Seq<char>)> {
    pairs.map_values(|p: (String, String)| (p.0@, p.1@))
}

/// The venue's word for a side.
pub open spec fn side_text(side: Side) -> Seq<char> {
    match side {
        Side::Buy => "BUY"@,
        Side::Sell => "SELL"@,
    }
}

/// One parameter.
fn pair(key: &str, value: String) -> (p: (String, String))
    ensures
        p.0@ == key@,
        p.1@ == value@,
{
    (key.to_owned(), value)
}

/// The parameters of an order: always a limit order that is filled at once
/// or cancelled, never one that rests and never a market order.
pub fn order_params(request: &OrderRequest) -> (params: Vec<(String, String)>)
    ensures
        pairs_view(params@) == seq![
            ("symbol"@, request.symbol@),
            ("side"@, side_text(request.side)),
            ("type"@, "LIMIT"@),
            (
                "quantity"@,
                decimal_text(request.quantity.spec_mantissa(), request.quantity.spec_scale()),
            ),
            (
                "price"@,
                decimal_text(request.limit_price.spec_mantissa(), request.limit_price.spec_scale()),
            ),
            ("timeInForce"@, "IOC"@),
        ],
{
    let side: &str = match request.side {
        Side::Buy => "BUY",
        Side::Sell => "SELL",
    };
    let mut params: Vec<(String, String)> = Vec::new();
    params.push(pair("symbol", request.symbol.clone()));
    params.push(pair("side", side.to_owned()));
    params.push(pair("type", "LIMIT".to_owned()));
    params.push(pair("quantity", format_decimal(&request.quantity)));
    params.push(pair("price", format_decimal(&request.limit_price)));
    params.push(pair("timeInForce", "IOC".to_owned()));
    assert(pairs_view(params@) =~= seq![
        ("symbol"@, request.symbol@),
        ("side"@, side_text(request.side)),
        ("type"@, "LIMIT"@),
        (
            "quantity"@,
            decimal_text(request.quantity.spec_mantissa(), request.quantity.spec_scale()),
        ),
        (
            "price"@,
            decimal_text(request.limit_price.spec_mantissa(), request.limit_price.spec_scale()),
        ),
        ("timeInForce"@, "IOC"@),
    ]);
    params
}

/// The parameters that cancel an order.
pub fn cancel_params(symbol: &str, order_id: &str) -> (params: Vec<(String, String)>)
    ensures
        pairs_view(params@) == seq![("symbol"@, symbol@), ("orderId"@, order_id@)],
{
    let mut params: Vec<(String, String)> = Vec::new();
    params.push(pair("symbol", symbol.to_owned()));
    params.push(pair("orderId", order_id.to_owned()));
    assert(pairs_view(params@) =~= seq![("symbol"@, symbol@), ("orderId"@, order_id@)]);
    params
}

/// The parameters that set a symbol's margin to isolated.
pub fn margin_type_params(symbol: &str) -> (params: Vec<(String, String)>)
    ensures
        pairs_view(params@) == seq![("symbol"@, symbol@), ("marginType"@, "ISOLATED"@)],
{
    let mut params: Vec<(String, String)> = Vec::new();
    params.push(pair("symbol", symbol.to_owned()));
    params.push(pair("marginType", "ISOLATED".to_owned()));
    assert(pairs_view(params@) =~= seq![("symbol"@, symbol@), ("marginType"@, "ISOLATED"@)]);
    params
}


/// One filter of a symbol, as the exchange lists it.
#[derive(Debug, Clone)]
pub struct ExchangeFilter {
    pub filter_type: Option<String>,
    pub tick_size: Option<String>,
    pub step_size: Option<String>,
}

/// One symbol with its filters, as the exchange lists it.
#[derive(Debug, Clone)]
pub struct SymbolInfo {
    pub symbol: String,
    pub filters: Vec<ExchangeFilter>,
}

/// One asset of the wallet, as the exchange lists it.
#[derive(Debug, Clone)]
pub struct AssetBalance {
    pub asset: String,
    pub wallet_balance: String,
}

/// The increments that the venue asks of an order.
#[derive(Debug, Clone, Copy)]
pub struct SymbolFilters {
    pub tick_size: Decimal,
    pub step_size: Decimal,
}

/// The increments after one filter has been read: a price filter sets the
/// tick and a lot filter the step, each only where its size is given and is
/// a decimal; anything else changes nothing.
pub open spec fn filtered(current: SymbolFilters, filter: ExchangeFilter) -> SymbolFilters {
    match filter.filter_type {
        Some(kind) => if kind@ == "PRICE_FILTER"@ {
            match filter.tick_size {
                Some(text) => match decimal_from_text(text@) {
                    Some(tick) => SymbolFilters { tick_size: tick, ..current },
                    None => current,
                },
                None => current,
            }
        } else if kind@ == "LOT_SIZE"@ {
            match filter.step_size {
                Some(text) => match decimal_from_text(text@) {
                    Some(step) => SymbolFilters { step_size: step, ..current },
                    None => current,
                },
                None => current,
            }
        } else {
            current
        },
        None => current,
    }
}

/// The increments after a list of filters has been read in order.
pub open spec fn filtered_by_all(current: SymbolFilters, filters: Seq<ExchangeFilter>) -> SymbolFilters
    decreases filters.len(),
{
    if filters.len() == 0 {
        current
    } else {
        filtered(filtered_by_all(current, filters.drop_last()), filters.last())
    }
}

/// Whether `index` is the first place in `names` that holds `name`.
pub open spec fn first_match(names: Seq<Seq<char>>, name: Seq<char>, index: int) -> bool {
    &&& 0 <= index < names.len()
    &&& names[index] == name
    &&& forall|j: int| 0 <= j < index ==> names[j] != name
}

/// Whether `name` is nowhere in `names`.
pub open spec fn no_match(names: Seq<Seq<char>>, name: Seq<char>) -> bool {
    forall|j: int| 0 <= j < names.len() ==> names[j] != name
}

/// The names of the symbols listed.
pub open spec fn listed_symbols(symbols: Seq<SymbolInfo>) -> Seq<Seq<char>> {
    symbols.map_values(|s: SymbolInfo| s.symbol@)
}

/// The names of the assets held.
pub open spec fn held_assets(assets: Seq<AssetBalance>) -> Seq<Seq<char>> {
    assets.map_values(|a: AssetBalance| a.asset@)
}

/// The first place at which `symbol` is listed.
pub fn find_symbol(symbols: &Vec<SymbolInfo>, symbol: &str) -> (r: Option<usize>)
    ensures
        r matches Some(i) ==> first_match(listed_symbols(symbols@), symbol@, i as int),
        r is None ==> no_match(listed_symbols(symbols@), symbol@),
{
    let mut i: usize = 0;
    while i < symbols.len()
        invariant
            i <= symbols.len(),
            forall|j: int| 0 <= j < i ==> listed_symbols(symbols@)[j] != symbol@,
        decreases symbols.len() - i,
    {
        if same_text(symbols[i].symbol.as_str(), symbol) {
            return Some(i);
        }
        i = i + 1;
    }
    None
}

impl SymbolFilters {
    /// The increments assumed until the exchange has been asked: a tick of
    /// 0.01 and a step of 0.001.
    pub fn new() -> (f: SymbolFilters)
        ensures
            f.tick_size == Decimal::from_parts(1, 2),
            f.step_size == Decimal::from_parts(1, 3),
    {
        SymbolFilters { tick_size: Decimal::new(1, 2), step_size: Decimal::new(1, 3) }
    }

    /// Reads one filter.
    pub fn apply_filter(&mut self, filter: &ExchangeFilter)
        ensures
            *final(self) == filtered(*old(self), *filter),
    {
        match &filter.filter_type {
            Some(kind) => {
                if same_text(kind.as_str(), "PRICE_FILTER") {
                    match &filter.tick_size {
                        Some(text) => match parse_decimal(text.as_str()) {
                            Some(tick) => {
                                self.tick_size = tick;
                            },
                            None => {},
                        },
                        None => {},
                    }
                } else if same_text(kind.as_str(), "LOT_SIZE") {
                    match &filter.step_size {
                        Some(text) => match parse_decimal(text.as_str()) {
                            Some(step) => {
                                self.step_size = step;
                            },
                            None => {},
                        },
                        None => {},
                    }
                }
            },
            None => {},
        }
    }

    /// Reads a list of filters in order; a later one of a kind overrides an
    /// earlier one.
    pub fn apply_filters(&mut self, filters: &Vec<ExchangeFilter>)
        ensures
            *final(self) == filtered_by_all(*old(self), filters@),
    {
        let mut i: usize = 0;
        while i < filters.len()
            invariant
                i <= filters.len(),
                *self == filtered_by_all(*old(self), filters@.take(i as int)),
            decreases filters.len() - i,
        {
            assert(filters@.take(i + 1).drop_last() =~= filters@.take(i as int));
            assert(filters@.take(i + 1).last() == filters@[i as int]);
            self.apply_filter(&filters[i]);
            i = i + 1;
        }
        assert(filters@.take(filters.len() as int) =~= filters@);
    }

    /// Takes the increments of `symbol` from the exchange's listing: the
    /// filters of the first entry with that name. Where the symbol is not
    /// listed the increments stay and the error says so.
    pub fn apply_exchange_info(&mut self, symbols: &Vec<SymbolInfo>, symbol: &str) -> (r: Result<
        (),
        ExchangeError,
    >)
        ensures
            r is Ok ==> exists|i: int|
                first_match(listed_symbols(symbols@), symbol@, i) && *final(self) == filtered_by_all(
                    *old(self),
                    (#[trigger] symbols@[i]).filters@,
                ),
            r is Err ==> no_match(listed_symbols(symbols@), symbol@) && *final(self) == *old(self)
                && r matches Err(ExchangeError::SymbolNotFound),
    {
        match find_symbol(symbols, symbol) {
            Some(i) => {
                self.apply_filters(&symbols[i].filters);
                Ok(())
            },
            None => Err(ExchangeError::SymbolNotFound),
        }
    }

    /// A price moved to the nearest multiple of the venue's tick, a tie
    /// going to the even multiple; the price itself where the tick is zero.
    /// `None` exactly where the result cannot be computed within the
    /// machine's limits.
    pub fn normalize_price(&self, price: Decimal) -> (r: Option<Decimal>)
        ensures
            self.tick_size@ == 0 ==> r == Some(price),
            self.tick_size@ != 0 ==> (r is Some <==> price_fits(price, self.tick_size)),
            r matches Some(d) ==> {
                &&& d@ == round_to_step(price@, self.tick_size@)
                &&& self.tick_size@ != 0 ==> d.spec_scale() == self.tick_size.spec_scale()
            },
    {
        try_normalize_price(price, self.tick_size)
    }

    /// A quantity cut down to a multiple of the venue's step, never up; the
    /// quantity itself where the step is zero. `None` exactly where the
    /// result cannot be computed within the machine's limits. The result
    /// is written at the scale of the step, so it can be normalized again
    /// and then comes back as it is.
    pub fn normalize_quantity(&self, quantity: Decimal) -> (r: Option<Decimal>)
        ensures
            self.step_size@ == 0 ==> r == Some(quantity),
            self.step_size@ != 0 ==> (r is Some <==> quantity_fits(quantity, self.step_size)),
            r matches Some(d) ==> {
                &&& d@ == floor_to_step(quantity@, self.step_size@)
                &&& self.step_size@ != 0 ==> d.spec_scale() == self.step_size.spec_scale()
            },
    {
        try_normalize_quantity(quantity, self.step_size)
    }
}

/// The balance of `asset`: the wallet balance of the first entry with that
/// name, read as a decimal.
pub fn find_balance(assets: &Vec<AssetBalance>, asset: &str) -> (r: Result<Decimal, ExchangeError>)
    ensures
        match r {
            Ok(balance) => exists|i: int|
                first_match(held_assets(assets@), asset@, i) && decimal_from_text(
                    (#[trigger] assets@[i]).wallet_balance@,
                ) == Some(balance),
            Err(ExchangeError::AssetNotFound) => no_match(held_assets(assets@), asset@),
            Err(ExchangeError::BadBalance) => exists|i: int|
                first_match(held_assets(assets@), asset@, i) && decimal_from_text(
                    (#[trigger] assets@[i]).wallet_balance@,
                ) is None,
            Err(_) => false,
        },
{
    let mut i: usize = 0;
    while i < assets.len()
        invariant
            i <= assets.len(),
            forall|j: int| 0 <= j < i ==> held_assets(assets@)[j] != asset@,
        decreases assets.len() - i,
    {
        if same_text(assets[i].asset.as_str(), asset) {
            assert(first_match(held_assets(assets@), asset@, i as int));
            return match parse_decimal(assets[i].wallet_balance.as_str()) {
                Some(balance) => Ok(balance),
                None => Err(ExchangeError::BadBalance),
            };
        }
        i = i + 1;
    }
    Err(ExchangeError::AssetNotFound)
}

} // verus!
