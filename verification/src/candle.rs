//! Folding ticks into one-minute candles. One candle is live at a time; a
//! tick of a later minute closes it and opens the next.

use crate::decimal::Decimal;
use crate::types::Ticker;
use vstd::prelude::*;

verus! {

/// Length of a candle in milliseconds.
pub const CANDLE_INTERVAL_MS: u64 = 60_000;

/// Start of the candle that a timestamp falls into.
pub open spec fn bucket_of(timestamp: u64) -> int {
    (timestamp as int / CANDLE_INTERVAL_MS as int) * CANDLE_INTERVAL_MS as int
}

/// Start of the candle that a timestamp falls into.
pub fn bucket_start(timestamp: u64) -> (b: u64)
    ensures
        b == bucket_of(timestamp),
        b <= timestamp < b + CANDLE_INTERVAL_MS,
        b % CANDLE_INTERVAL_MS == 0,
{
    (timestamp / CANDLE_INTERVAL_MS) * CANDLE_INTERVAL_MS
}

/// A candle under construction.
#[derive(Debug, Clone, Copy)]
pub struct CandleBuilder {
    pub open_time: u64,
    pub open: Decimal,
    pub high: Decimal,
    pub low: Decimal,
    pub close: Decimal,
}

/// The candle that a single tick opens.
pub open spec fn opened_by(tick: Ticker) -> CandleBuilder {
    CandleBuilder {
        open_time: bucket_of(tick.timestamp) as u64,
        open: tick.price,
        high: tick.price,
        low: tick.price,
        close: tick.price,
    }
}

/// The candle after one more tick has been merged into it.
pub open spec fn merged(candle: CandleBuilder, tick: Ticker) -> CandleBuilder {
    CandleBuilder {
        open_time: candle.open_time,
        open: candle.open,
        high: if tick.price@ > candle.high@ {
            tick.price
        } else {
            candle.high
        },
        low: if tick.price@ < candle.low@ {
            tick.price
        } else {
            candle.low
        },
        close: tick.price,
    }
}

/// Whether `tick` belongs to a later candle than `candle`.
pub open spec fn closes(candle: CandleBuilder, tick: Ticker) -> bool {
    bucket_of(tick.timestamp) > candle.open_time
}

/// The live candle after `tick`: a fresh one where there was none or the
/// tick closes the old one, else the old one with the tick merged in.
pub open spec fn next_candle(current: Option<CandleBuilder>, tick: Ticker) -> CandleBuilder {
    match current {
        Some(candle) => if closes(candle, tick) {
            opened_by(tick)
        } else {
            merged(candle, tick)
        },
        None => opened_by(tick),
    }
}

/// The candle that `tick` closes, if any: the live one, unchanged.
pub open spec fn closed_candle(current: Option<CandleBuilder>, tick: Ticker) -> Option<
    CandleBuilder,
> {
    match current {
        Some(candle) => if closes(candle, tick) {
            Some(candle)
        } else {
            None
        },
        None => None,
    }
}

impl CandleBuilder {
    /// The candle that `tick` opens: all four prices are the tick's.
    pub fn new(tick: &Ticker) -> (c: CandleBuilder)
        ensures
            c == opened_by(*tick),
    {
        CandleBuilder {
            open_time: bucket_start(tick.timestamp),
            open: tick.price,
            high: tick.price,
            low: tick.price,
            close: tick.price,
        }
    }

    /// Merges `tick` into the candle: high and low widen to hold its price,
    /// the close follows it, the open stays.
    pub fn update(&mut self, tick: &Ticker)
        ensures
            *final(self) == merged(*old(self), *tick),
    {
        if tick.price.gt(&self.high) {
            self.high = tick.price;
        }
        if tick.price.lt(&self.low) {
            self.low = tick.price;
        }
        self.close = tick.price;
    }
}

/// Feeds one tick to the aggregator. Returns the live candle after the tick
/// and the candle that the tick closed, if it closed one.
pub fn roll(current: Option<CandleBuilder>, tick: &Ticker) -> (r: (
    CandleBuilder,
    Option<CandleBuilder>,
))
    ensures
        r.0 == next_candle(current, *tick),
        r.1 == closed_candle(current, *tick),
{
    match current {
        Some(candle) => {
            if bucket_start(tick.timestamp) > candle.open_time {
                (CandleBuilder::new(tick), Some(candle))
            } else {
                let mut live = candle;
                live.update(tick);
                (live, None)
            }
        },
        None => (CandleBuilder::new(tick), None),
    }
}

/// The live candle after a whole sequence of ticks, starting with none.
pub open spec fn fold_candles(ticks: Seq<Ticker>) -> Option<CandleBuilder>
    decreases ticks.len(),
{
    if ticks.len() == 0 {
        None
    } else {
        Some(next_candle(fold_candles(ticks.drop_last()), ticks.last()))
    }
}

/// Timestamps never go back.
pub open spec fn in_time_order(ticks: Seq<Ticker>) -> bool {
    forall|i: int, j: int| 0 <= i <= j < ticks.len() ==> ticks[i].timestamp <= ticks[j].timestamp
}

/// Index of the first tick that falls into the same candle as the last one.
pub open spec fn first_of_last_bucket(ticks: Seq<Ticker>) -> int
    decreases ticks.len(),
{
    if ticks.len() <= 1 {
        0
    } else if bucket_of(ticks[ticks.len() - 2].timestamp) == bucket_of(ticks.last().timestamp) {
        first_of_last_bucket(ticks.drop_last())
    } else {
        ticks.len() - 1
    }
}

/// Later timestamps fall into the same or a later candle.
pub proof fn lemma_bucket_monotonic(a: u64, b: u64)
    requires
        a <= b,
    ensures
        bucket_of(a) <= bucket_of(b),
        0 <= bucket_of(a) <= a,
{
    vstd::arithmetic::div_mod::lemma_div_is_ordered(a as int, b as int, 60_000);
}

/// For ticks in time order, the live candle covers exactly the ticks of the
/// last tick's minute: it opens at the first of them, closes at the last,
/// and its high and low bound every one of them and are each reached by one.
pub proof fn lemma_candle_covers_bucket(ticks: Seq<Ticker>)
    requires
        ticks.len() > 0,
        in_time_order(ticks),
    ensures
        ({
            let c = fold_candles(ticks)->0;
            let j = first_of_last_bucket(ticks);
            &&& fold_candles(ticks) is Some
            &&& 0 <= j < ticks.len()
            &&& c.open_time == bucket_of(ticks.last().timestamp)
            &&& c.open == ticks[j].price
            &&& c.close == ticks.last().price
            &&& forall|i: int| 0 <= i < j ==> bucket_of(#[trigger] ticks[i].timestamp) < c.open_time
            &&& forall|i: int|
                j <= i < ticks.len() ==> bucket_of(#[trigger] ticks[i].timestamp) == c.open_time
            &&& forall|i: int| j <= i < ticks.len() ==> c.low@ <= (#[trigger] ticks[i]).price@ <= c.high@
            &&& exists|i: int| j <= i < ticks.len() && c.high == (#[trigger] ticks[i]).price
            &&& exists|i: int| j <= i < ticks.len() && c.low == (#[trigger] ticks[i]).price
        }),
    decreases ticks.len(),
{
    let n = ticks.len() as int;
    let last = ticks.last();
    lemma_bucket_monotonic(last.timestamp, last.timestamp);
    if n == 1 {
        assert(ticks.drop_last().len() == 0);
        assert(fold_candles(ticks.drop_last()) is None);
        let c = fold_candles(ticks)->0;
        assert(c == opened_by(last));
        assert(c.high == ticks[0].price);
        assert(c.low == ticks[0].price);
    } else {
        let before = ticks.drop_last();
        assert(in_time_order(before)) by {
            assert forall|i: int, k: int| 0 <= i <= k < before.len() implies before[i].timestamp
                <= before[k].timestamp by {
                assert(before[i] == ticks[i] && before[k] == ticks[k]);
            }
        }
        lemma_candle_covers_bucket(before);
        let p = fold_candles(before)->0;
        let jp = first_of_last_bucket(before);
        let c = fold_candles(ticks)->0;
        let j = first_of_last_bucket(ticks);
        assert(before.last() == ticks[n - 2]);
        assert(forall|i: int| 0 <= i < n - 1 ==> before[i] == ticks[i]);
        lemma_bucket_monotonic(ticks[n - 2].timestamp, last.timestamp);
        if bucket_of(ticks[n - 2].timestamp) == bucket_of(last.timestamp) {
            assert(!closes(p, last));
            assert(c == merged(p, last));
            assert(j == jp);
            let hi = choose|i: int| jp <= i < before.len() && p.high == (#[trigger] before[i]).price;
            let lo = choose|i: int| jp <= i < before.len() && p.low == (#[trigger] before[i]).price;
            if last.price@ > p.high@ {
                assert(c.high == ticks[n - 1].price);
            } else {
                assert(c.high == ticks[hi].price);
            }
            if last.price@ < p.low@ {
                assert(c.low == ticks[n - 1].price);
            } else {
                assert(c.low == ticks[lo].price);
            }
            assert forall|i: int| j <= i < ticks.len() implies c.low@ <= (#[trigger] ticks[i]).price@
                <= c.high@ by {
                if i < n - 1 {
                    assert(before[i] == ticks[i]);
                }
            }
            assert forall|i: int| j <= i < ticks.len() implies bucket_of(
                #[trigger] ticks[i].timestamp,
            ) == c.open_time by {
                if i < n - 1 {
                    assert(before[i] == ticks[i]);
                }
            }
            assert forall|i: int| 0 <= i < j implies bucket_of(#[trigger] ticks[i].timestamp)
                < c.open_time by {
                assert(before[i] == ticks[i]);
            }
        } else {
            assert(closes(p, last));
            assert(c == opened_by(last));
            assert(j == n - 1);
            assert(c.high == ticks[n - 1].price);
            assert(c.low == ticks[n - 1].price);
            assert forall|i: int| 0 <= i < j implies bucket_of(#[trigger] ticks[i].timestamp)
                < c.open_time by {
                assert(before[i] == ticks[i]);
                lemma_bucket_monotonic(ticks[i].timestamp, ticks[n - 2].timestamp);
            }
        }
    }
}


/// A tick of a later minute, however many minutes later, closes exactly the
/// live candle and opens the next with itself: the closed candle is the one
/// that the ticks before it folded into, which covers its minute as
/// `lemma_candle_covers_bucket` says, and the same tick does not close the
/// candle that it opened.
pub proof fn lemma_closed_candle_is_the_fold(ticks: Seq<Ticker>, tick: Ticker)
    requires
        ticks.len() > 0,
        in_time_order(ticks),
        bucket_of(tick.timestamp) > bucket_of(ticks.last().timestamp),
    ensures
        closed_candle(fold_candles(ticks), tick) == fold_candles(ticks),
        fold_candles(ticks) is Some,
        next_candle(fold_candles(ticks), tick) == opened_by(tick),
        fold_candles(ticks.push(tick)) == Some(opened_by(tick)),
        closed_candle(Some(opened_by(tick)), tick) is None,
        ({
            let c = fold_candles(ticks)->0;
            let j = first_of_last_bucket(ticks);
            &&& 0 <= j < ticks.len()
            &&& c.open_time == bucket_of(ticks.last().timestamp)
            &&& c.open == ticks[j].price
            &&& c.close == ticks.last().price
            &&& forall|i: int|
                j <= i < ticks.len() ==> bucket_of(#[trigger] ticks[i].timestamp) == c.open_time
            &&& forall|i: int| 0 <= i < j ==> bucket_of(#[trigger] ticks[i].timestamp) < c.open_time
            &&& forall|i: int| j <= i < ticks.len() ==> c.low@ <= (#[trigger] ticks[i]).price@ <= c.high@
        }),
{
    lemma_candle_covers_bucket(ticks);
    lemma_bucket_monotonic(tick.timestamp, tick.timestamp);
    assert(ticks.push(tick).drop_last() =~= ticks);
    assert(ticks.push(tick).last() == tick);
}

/// A tick of the live candle's minute closes nothing and is merged.
pub proof fn lemma_same_minute_merges(ticks: Seq<Ticker>, tick: Ticker)
    requires
        ticks.len() > 0,
        in_time_order(ticks),
        bucket_of(tick.timestamp) == bucket_of(ticks.last().timestamp),
    ensures
        closed_candle(fold_candles(ticks), tick) is None,
        next_candle(fold_candles(ticks), tick) == merged(fold_candles(ticks)->0, tick),
{
    lemma_candle_covers_bucket(ticks);
}

} // verus!
