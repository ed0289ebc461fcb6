//! The state behind the terminal display: the latest price and indicator
//! read-out, the last signal, and a short log. Drawing it and reading the
//! clock stay with the program around the library.

use crate::decimal::{lemma_pow10_positive, lemma_view_wide, nearest_even_ratio, pow10, ratio_fits, unit, Decimal};
use crate::rounding::{lemma_nearest_even_common_factor, nearest_even_div};
use crate::signing::{decimal_digits, number_text};
use crate::text::{decimal_text, format_decimal};
use crate::types::{Side, Signal, UiEvent};
use vstd::prelude::*;
use vstd::string::StringExecFns;

verus! {

/// Lines that the log keeps; the oldest goes first.
pub const MAX_LOG_LINES: usize = 20;

/// The log after one more line: the line is added at the end, and where
/// that makes more than `MAX_LOG_LINES` the oldest line is dropped.
pub open spec fn logged(logs: Seq<String>, line: String) -> Seq<String> {
    if logs.len() + 1 > MAX_LOG_LINES {
        logs.push(line).drop_first()
    } else {
        logs.push(line)
    }
}

/// A log line: the time in square brackets, then the message.
pub open spec fn stamped_line(time: Seq<char>, message: Seq<char>) -> Seq<char> {
    "["@ + time + "] "@ + message
}

/// A log line: the time in square brackets, then the message.
pub fn log_line(time: &str, message: &str) -> (r: String)
    ensures
        r@ == stamped_line(time@, message@),
{
    let mut line: String = "[".to_owned();
    line.append(time);
    line.append("] ");
    line.append(message);
    line
}

/// A number in at least two digits.
pub open spec fn two_digits(n: nat) -> Seq<char> {
    if n < 10 {
        "0"@ + decimal_digits(n)
    } else {
        decimal_digits(n)
    }
}

/// A number in at least two digits.
fn two_digit_text(n: u64) -> (r: String)
    ensures
        r@ == two_digits(n as nat),
{
    if n < 10 {
        let mut text: String = "0".to_owned();
        let digits: String = number_text(n);
        text.append(digits.as_str());
        text
    } else {
        number_text(n)
    }
}

/// A running time as hours, minutes and seconds, two digits each.
pub open spec fn uptime(seconds: u64) -> Seq<char> {
    two_digits((seconds / 3600) as nat) + ":"@ + two_digits(((seconds % 3600) / 60) as nat) + ":"@
        + two_digits((seconds % 60) as nat)
}

/// A running time as hours, minutes and seconds, two digits each.
pub fn uptime_text(seconds: u64) -> (r: String)
    ensures
        r@ == uptime(seconds),
{
    let hours: String = two_digit_text(seconds / 3600);
    let minutes: String = two_digit_text((seconds % 3600) / 60);
    let secs: String = two_digit_text(seconds % 60);
    let mut text: String = hours;
    text.append(":");
    text.append(minutes.as_str());
    text.append(":");
    text.append(secs.as_str());
    text
}

/// A side as the log names it.
pub open spec fn side_name(side: Side) -> Seq<char> {
    match side {
        Side::Buy => "Buy"@,
        Side::Sell => "Sell"@,
    }
}

/// A side as the signal field shows it.
pub open spec fn side_banner(side: Side) -> Seq<char> {
    match side {
        Side::Buy => "BUY"@,
        Side::Sell => "SELL"@,
    }
}

/// The message that records an advice.
pub open spec fn signal_message(side: Side, price: Decimal) -> Seq<char> {
    "SIGNAL: "@ + side_name(side) + " @ "@ + decimal_text(
        price.spec_mantissa(),
        price.spec_scale(),
    )
}

/// The message that records an advice.
pub fn signal_log(side: Side, price: &Decimal) -> (r: String)
    ensures
        r@ == signal_message(side, *price),
{
    let mut message: String = "SIGNAL: ".to_owned();
    match side {
        Side::Buy => message.append("Buy"),
        Side::Sell => message.append("Sell"),
    }
    message.append(" @ ");
    let price_text: String = format_decimal(price);
    message.append(price_text.as_str());
    message
}

/// What the display shows.
pub struct App {
    pub symbol: String,
    pub price: Decimal,
    pub rsi: Decimal,
    pub obi: Decimal,
    /// Profit or loss of the open position as a fraction, if one is open.
    pub pnl: Option<Decimal>,
    pub logs: Vec<String>,
    pub active_signal: String,
}

impl App {
    /// The display before anything has arrived.
    pub fn new(symbol: String) -> (app: App)
        ensures
            app.symbol == symbol,
            app.price@ == 0,
            app.rsi == Decimal::from_parts(50, 0),
            app.obi@ == 0,
            app.pnl is None,
            app.logs@.len() == 0,
            app.active_signal@ == "WAITING"@,
    {
        App {
            symbol,
            price: Decimal::zero(),
            rsi: Decimal::new(50, 0),
            obi: Decimal::zero(),
            pnl: None,
            logs: Vec::new(),
            active_signal: "WAITING".to_owned(),
        }
    }

    /// Whether the two displays agree in everything but the log and the
    /// signal field.
    pub open spec fn same_readout(self, other: App) -> bool {
        &&& self.symbol == other.symbol
        &&& self.price == other.price
        &&& self.rsi == other.rsi
        &&& self.obi == other.obi
        &&& self.pnl == other.pnl
    }

    /// Whether the log of `self` is the log of `before` with one more line
    /// that reads `text`, the oldest line dropped where the log was full.
    pub open spec fn logged_after(self, before: App, text: Seq<char>) -> bool {
        &&& self.logs@.len() > 0
        &&& self.logs@.last()@ == text
        &&& self.logs@ == logged(before.logs@, self.logs@.last())
    }

    /// Adds a message to the log under the time given, dropping the oldest
    /// line where the log is full.
    pub fn add_log(&mut self, time: &str, message: &str)
        ensures
            final(self).logged_after(*old(self), stamped_line(time@, message@)),
            final(self).same_readout(*old(self)),
            final(self).active_signal == old(self).active_signal,
    {
        let line: String = log_line(time, message);
        self.logs.push(line);
        if self.logs.len() > MAX_LOG_LINES {
            let ghost before = self.logs@;
            self.logs.remove(0);
            assert(self.logs@ =~= before.drop_first());
        }
    }

    /// Takes in one event of the decision loop. A tick updates the price, a
    /// snapshot the read-out; an advice sets the signal field and is logged
    /// under the time given; a hold sets the signal field; a log line is
    /// logged. Nothing else changes.
    pub fn apply(&mut self, event: UiEvent, time: &str)
        ensures
            match event {
                UiEvent::TickerUpdate(tick) => {
                    &&& *final(self) == (App { price: tick.price, ..*old(self) })
                },
                UiEvent::Snapshot(snapshot) => {
                    &&& *final(self) == (App {
                        rsi: snapshot.rsi,
                        obi: snapshot.obi,
                        pnl: snapshot.position_pnl,
                        ..*old(self)
                    })
                },
                UiEvent::Log(message) => {
                    &&& final(self).same_readout(*old(self))
                    &&& final(self).active_signal == old(self).active_signal
                    &&& final(self).logged_after(*old(self), stamped_line(time@, message@))
                },
                UiEvent::Signal(Signal::Advice(side, price)) => {
                    &&& final(self).same_readout(*old(self))
                    &&& final(self).active_signal@ == side_banner(side)
                    &&& final(self).logged_after(
                        *old(self),
                        stamped_line(time@, signal_message(side, price)),
                    )
                },
                UiEvent::Signal(Signal::Hold) => {
                    &&& final(self).same_readout(*old(self))
                    &&& final(self).active_signal@ == "HOLD"@
                    &&& final(self).logs == old(self).logs
                },
                UiEvent::Signal(Signal::StateChanged) => *final(self) == *old(self),
            },
    {
        match event {
            UiEvent::TickerUpdate(tick) => {
                self.price = tick.price;
            },
            UiEvent::Signal(signal) => match signal {
                Signal::Advice(side, price) => {
                    self.active_signal = match side {
                        Side::Buy => "BUY".to_owned(),
                        Side::Sell => "SELL".to_owned(),
                    };
                    let message: String = signal_log(side, &price);
                    self.add_log(time, message.as_str());
                },
                Signal::StateChanged => {},
                Signal::Hold => {
                    self.active_signal = "HOLD".to_owned();
                },
            },
            UiEvent::Log(message) => {
                self.add_log(time, message.as_str());
            },
            UiEvent::Snapshot(snapshot) => {
                self.rsi = snapshot.rsi;
                self.obi = snapshot.obi;
                self.pnl = snapshot.position_pnl;
            },
        }
    }
}

/// What the display estimates of an open position from its profit or loss
/// as a fraction, for a stake of ten quote units and a fee of 0.05 % on
/// each of entry and exit.
#[derive(Debug, Clone, Copy)]
pub struct PositionEstimate {
    /// Profit or loss before fees.
    pub gross_pnl: Decimal,
    /// Fees of entry and exit together.
    pub total_fees: Decimal,
    /// Profit or loss after fees.
    pub net_pnl: Decimal,
    /// Profit or loss after fees, in per cent of the stake.
    pub net_pnl_pct: Decimal,
    /// Whether the position shows as long: the gross is not negative.
    pub long: bool,
}

/// Whether the estimate for `pnl` can be held, each number at its own
/// scale.
pub open spec fn estimate_fits(pnl: Decimal) -> bool {
    let m = pnl.spec_mantissa();
    let s = pnl.spec_scale();
    let fees = 5 * (2 * pow10(s) + m);
    &&& Decimal::representable(10 * m, s)
    &&& Decimal::representable(2 * pow10(s) + m, s)
    &&& Decimal::representable(fees, s + 3)
    &&& Decimal::representable(10 * m * 1000 - fees, s + 3)
    &&& Decimal::representable(10 * (10 * m * 1000 - fees), s + 3)
}

/// The estimate for a profit or loss of `pnl`, as a fraction of the stake:
/// the gross is ten times `pnl`, the fees are 0.005 times `2 + pnl`, the
/// net is their difference. All of it exact; `None` exactly where a number
/// cannot be held.
pub fn estimate_position(pnl: &Decimal) -> (r: Option<PositionEstimate>)
    ensures
        r is Some <==> estimate_fits(*pnl),
        r matches Some(e) ==> {
            &&& e.gross_pnl@ == 10 * pnl@
            &&& 1000 * e.total_fees@ == 5 * (2 * unit() + pnl@)
            &&& e.net_pnl@ == e.gross_pnl@ - e.total_fees@
            &&& e.net_pnl_pct@ == 10 * e.net_pnl@
            &&& e.long == (pnl@ >= 0)
        },
{
    let stake: Decimal = Decimal::new(10, 0);
    let two: Decimal = Decimal::new(2, 0);
    let fee: Decimal = Decimal::new(5, 3);
    let ghost m = pnl.spec_mantissa();
    let ghost s = pnl.spec_scale();
    let ghost p = pow10(s) as int;
    proof {
        use_type_invariant(pnl);
        pnl.lemma_wf();
        lemma_pow10_positive(28);
        lemma_pow10_positive(s);
        lemma_pow10_positive(3);
        assert(pow10(0) == 1);
        assert(pow10(3) == 1000) by {
            reveal_with_fuel(pow10, 4);
        }
        assert(stake.mantissa_at(0) == 10) by (nonlinear_arith)
            requires
                stake.mantissa_at(0) == 10 * pow10(0),
                pow10(0) == 1,
        ;
    }
    let gross: Decimal = match stake.checked_mul(pnl) {
        Some(gross) => gross,
        None => {
            return None;
        },
    };
    proof {
        assert(gross@ * unit() == (10 * unit()) * pnl@) by {
            assert(stake@ == 10 * unit()) by (nonlinear_arith)
                requires
                    stake@ == 10 * pow10(28),
                    unit() == pow10(28),
            ;
        }
        assert(gross@ == 10 * pnl@) by (nonlinear_arith)
            requires
                gross@ * unit() == (10 * unit()) * pnl@,
                unit() > 0,
        ;
        assert(two.mantissa_at(s) == 2 * p);
        assert(pnl.mantissa_at(s) == m) by (nonlinear_arith)
            requires
                pnl.mantissa_at(s) == m * pow10(0),
                pow10(0) == 1,
        ;
    }
    let two_plus: Decimal = match two.checked_add(pnl) {
        Some(sum) => sum,
        None => {
            return None;
        },
    };
    let fees: Decimal = match fee.checked_mul(&two_plus) {
        Some(fees) => fees,
        None => {
            return None;
        },
    };
    proof {
        assert(two@ == 2 * unit()) by (nonlinear_arith)
            requires
                two@ == 2 * pow10(28),
                unit() == pow10(28),
        ;
        crate::decimal::lemma_pow10_adds(3, 25);
        assert(1000 * fee@ == 5 * unit()) by (nonlinear_arith)
            requires
                fee@ == 5 * pow10(25),
                unit() == 1000 * pow10(25),
        ;
        assert(1000 * fees@ == 5 * two_plus@) by (nonlinear_arith)
            requires
                fees@ * unit() == fee@ * two_plus@,
                1000 * fee@ == 5 * unit(),
                unit() > 0,
        ;
        assert(gross.mantissa_at(s + 3) == 10 * m * 1000) by (nonlinear_arith)
            requires
                gross.mantissa_at(s + 3) == (10 * m) * pow10(3),
                pow10(3) == 1000,
        ;
        assert(fees.mantissa_at(s + 3) == 5 * (2 * p + m)) by (nonlinear_arith)
            requires
                fees.mantissa_at(s + 3) == (5 * (2 * p + m)) * pow10(0),
                pow10(0) == 1,
        ;
    }
    let net: Decimal = match gross.checked_sub(&fees) {
        Some(net) => net,
        None => {
            return None;
        },
    };
    let net_pct: Decimal = match stake.checked_mul(&net) {
        Some(pct) => pct,
        None => {
            return None;
        },
    };
    proof {
        assert(net_pct@ == 10 * net@) by (nonlinear_arith)
            requires
                net_pct@ * unit() == stake@ * net@,
                stake@ == 10 * unit(),
                unit() > 0,
        ;
    }
    let zero: Decimal = Decimal::zero();
    Some(
        PositionEstimate {
            gross_pnl: gross,
            total_fees: fees,
            net_pnl: net,
            net_pnl_pct: net_pct,
            long: pnl.ge(&zero),
        },
    )
}

/// Whether the entry price behind `price` and `pnl` can be estimated: the
/// factor `1 + pnl` can be held and is not zero, and the quotient can be
/// taken in 128 bits and held with four decimal places.
pub open spec fn entry_estimate_fits(price: Decimal, pnl: Decimal) -> bool {
    &&& pnl.successor_fits()
    &&& unit() + pnl@ != 0
    &&& ratio_fits(
        price.spec_mantissa(),
        price.spec_scale(),
        pow10(pnl.spec_scale()) + pnl.spec_mantissa(),
        pnl.spec_scale() + 4,
    )
    &&& Decimal::representable(nearest_even_div(10_000 * price@, unit() + pnl@), 4)
}

/// The entry price that a price and a profit or loss as a fraction imply,
/// `price / (1 + pnl)`, to the nearest ten-thousandth. An estimate for the
/// display only: the position itself carries the true entry price.
pub fn estimate_entry(price: &Decimal, pnl: &Decimal) -> (r: Option<Decimal>)
    ensures
        r is Some <==> entry_estimate_fits(*price, *pnl),
        r matches Some(entry) ==> entry == Decimal::from_parts(
            nearest_even_div(10_000 * price@, unit() + pnl@),
            4,
        ),
{
    let factor: Decimal = match pnl.one_plus() {
        Some(factor) => factor,
        None => {
            return None;
        },
    };
    if factor.is_zero() {
        return None;
    }
    let fm: i128 = factor.mantissa();
    let pm: i128 = price.mantissa();
    let ghost fs = factor.spec_scale();
    proof {
        lemma_view_wide(*price);
        lemma_view_wide(factor);
        lemma_pow10_positive(28);
        lemma_pow10_positive((28 - fs) as nat);
        lemma_pow10_positive((52 - fs) as nat);
        crate::decimal::lemma_pow10_adds(4, (52 - fs) as nat);
        assert(pow10(4) == 10_000) by {
            reveal_with_fuel(pow10, 5);
        }
        assert(fm != 0) by (nonlinear_arith)
            requires
                fm * pow10((28 - fs) as nat) != 0,
        ;
        // The divisor at scale fs + 4 is the factor over ten thousand.
        let d = crate::decimal::wide_units(fm as int, fs + 4);
        let w = crate::decimal::wide_units(fm as int, fs);
        assert(w == 10_000 * d) by (nonlinear_arith)
            requires
                w == fm * pow10((56 - fs) as nat),
                d == fm * pow10((52 - fs) as nat),
                pow10((56 - fs) as nat) == 10_000 * pow10((52 - fs) as nat),
        ;
        assert(d != 0 && (d > 0 <==> factor@ > 0)) by (nonlinear_arith)
            requires
                10_000 * d == factor@ * unit(),
                unit() > 0,
                factor@ != 0,
        ;
        // price * unit over factor * unit / 10^4 is 10^4 * price over factor.
        let n = price@ * unit();
        crate::rounding::lemma_nearest_even_common_factor(n, d, 10_000);
        assert(n * 10_000 == (10_000 * price@) * unit()) by (nonlinear_arith)
            requires
                n == price@ * unit(),
        ;
        assert(d * 10_000 == factor@ * unit());
        lemma_nearest_even_common_factor(10_000 * price@, factor@, unit());
    }
    match nearest_even_ratio(pm, price.scale(), fm, factor.scale() + 4) {
        Some(k) => Decimal::try_from_i128_with_scale(k, 4),
        None => None,
    }
}

/// How a log line is shown.
#[derive(Debug, Clone, Copy, PartialEq, Eq, Structural)]
pub enum LogKind {
    Signal,
    Error,
    Plain,
}

/// Whether `needle` occurs in `hay` at place `at`.
pub open spec fn occurs_at(hay: Seq<char>, needle: Seq<char>, at: int) -> bool {
    0 <= at && at + needle.len() <= hay.len() && hay.subrange(at, at + needle.len()) == needle
}

/// Whether `needle` occurs somewhere in `hay`.
pub open spec fn occurs_in(hay: Seq<char>, needle: Seq<char>) -> bool {
    exists|at: int| occurs_at(hay, needle, at)
}

/// The characters of a text.
fn chars_of(text: &str) -> (v: Vec<char>)
    ensures
        v@ == text@,
{
    let n: usize = text.unicode_len();
    let mut v: Vec<char> = Vec::new();
    let mut i: usize = 0;
    while i < n
        invariant
            n == text@.len(),
            i <= n,
            v@ == text@.subrange(0, i as int),
        decreases n - i,
    {
        v.push(text.get_char(i));
        assert(v@ =~= text@.subrange(0, i + 1));
        i = i + 1;
    }
    assert(text@.subrange(0, n as int) =~= text@);
    v
}

/// Whether `needle` occurs somewhere in `hay`.
pub fn contains_text(hay: &str, needle: &str) -> (r: bool)
    ensures
        r == occurs_in(hay@, needle@),
{
    let h: Vec<char> = chars_of(hay);
    let n: Vec<char> = chars_of(needle);
    if n.len() > h.len() {
        assert forall|at: int| !occurs_at(hay@, needle@, at) by {}
        return false;
    }
    let last: usize = h.len() - n.len();
    let mut at: usize = 0;
    while at <= last
        invariant
            h@ == hay@,
            n@ == needle@,
            last == h.len() - n.len(),
            at <= last + 1,
            forall|k: int| 0 <= k < at ==> !occurs_at(hay@, needle@, k),
        decreases last + 1 - at,
    {
        let mut j: usize = 0;
        while j < n.len() && h[at + j] == n[j]
            invariant
                at <= last,
                last == h.len() - n.len(),
                j <= n.len(),
                forall|k: int| 0 <= k < j ==> h@[at + k] == n@[k],
            decreases n.len() - j,
        {
            j = j + 1;
        }
        if j == n.len() {
            assert(h@.subrange(at as int, at + n.len()) =~= n@);
            assert(occurs_at(hay@, needle@, at as int));
            return true;
        }
        assert(!occurs_at(hay@, needle@, at as int)) by {
            if occurs_at(hay@, needle@, at as int) {
                assert(h@.subrange(at as int, at + n.len())[j as int] == n@[j as int]);
            }
        }
        at = at + 1;
    }
    assert forall|k: int| !occurs_at(hay@, needle@, k) by {}
    false
}

/// How a log line is shown: as a signal where it names one, else as an
/// error where it names one, else plainly.
pub fn log_kind(line: &str) -> (kind: LogKind)
    ensures
        kind == (if occurs_in(line@, "SIGNAL"@) {
            LogKind::Signal
        } else if occurs_in(line@, "Error"@) {
            LogKind::Error
        } else {
            LogKind::Plain
        }),
{
    if contains_text(line, "SIGNAL") {
        LogKind::Signal
    } else if contains_text(line, "Error") {
        LogKind::Error
    } else {
        LogKind::Plain
    }
}

} // verus!
