//! The stream intake as a state machine. The program around the library
//! connects, reads and sleeps; after each of these it reports what happened
//! and is told what to do next. There is no final state: a lost connection
//! is always followed by a pause and another attempt.

use crate::exchange::{to_ticker, BookTickerEvent};
use crate::types::Ticker;
use vstd::prelude::*;

verus! {

/// Seconds to wait before connecting again.
pub const RECONNECT_DELAY_SECS: u64 = 5;

/// Ticks that may wait between intake and decision loop. A tick that finds
/// the queue full is dropped.
pub const TICK_QUEUE_CAPACITY: usize = 100;

/// Where the intake stands.
#[derive(Debug, Clone, Copy, PartialEq, Eq, Structural)]
pub enum StreamState {
    /// A connection attempt is under way.
    Connecting,
    /// Connected; a read is under way.
    Reading,
    /// Pausing before the next attempt.
    Waiting,
}

/// What the outside reports.
#[derive(Debug, Clone, Copy)]
pub enum StreamEvent {
    Connected,
    ConnectFailed,
    /// A message that was read as a book update.
    Update(BookTickerEvent),
    /// A message that could not be read as a book update.
    Malformed,
    ReadFailed,
    /// The peer closed the stream.
    Ended,
    /// The pause is over.
    DelayElapsed,
}

/// What the outside is to do next.
#[derive(Debug, Clone)]
pub enum StreamAction {
    Connect,
    Read,
    /// Offer the tick to the queue without waiting, dropping it if the
    /// queue is full; then read on.
    Forward(Ticker),
    /// Sleep for this many seconds.
    Wait(u64),
}

/// The state after an event.
pub open spec fn next_state(state: StreamState, event: StreamEvent) -> StreamState {
    match (state, event) {
        (StreamState::Connecting, StreamEvent::Connected) => StreamState::Reading,
        (StreamState::Connecting, StreamEvent::ConnectFailed) => StreamState::Waiting,
        (StreamState::Reading, StreamEvent::ReadFailed) => StreamState::Waiting,
        (StreamState::Reading, StreamEvent::Ended) => StreamState::Waiting,
        (StreamState::Waiting, StreamEvent::DelayElapsed) => StreamState::Connecting,
        _ => state,
    }
}

/// The action that a state calls for when nothing is to be forwarded.
pub open spec fn standing_action(state: StreamState) -> StreamAction {
    match state {
        StreamState::Connecting => StreamAction::Connect,
        StreamState::Reading => StreamAction::Read,
        StreamState::Waiting => StreamAction::Wait(RECONNECT_DELAY_SECS),
    }
}

/// The book update that an event hands on as a tick: one that arrives
/// while reading and whose mid price can be held.
pub open spec fn forwarded(state: StreamState, event: StreamEvent) -> Option<BookTickerEvent> {
    match event {
        StreamEvent::Update(update) => if state == StreamState::Reading
            && update.best_bid_price.midpoint_fits(update.best_ask_price) {
            Some(update)
        } else {
            None
        },
        _ => None,
    }
}

/// The start: connect.
pub fn stream_start() -> (r: (StreamState, StreamAction))
    ensures
        r.0 == StreamState::Connecting,
        r.1 == StreamAction::Connect,
{
    (StreamState::Connecting, StreamAction::Connect)
}

/// One step of the intake for the stream of `symbol`.
///
/// A book update read while connected is forwarded as a tick, where its mid
/// price can be held; a malformed message is dropped and reading goes on. A
/// failed or ended read, like a failed connection attempt, leads to a pause
/// and then to another attempt. An event that does not belong to the state
/// changes nothing.
pub fn stream_step(state: StreamState, symbol: &String, event: StreamEvent) -> (r: (
    StreamState,
    StreamAction,
))
    ensures
        r.0 == next_state(state, event),
        match forwarded(state, event) {
            Some(update) => r.1 is Forward && {
                let tick = r.1->Forward_0;
                &&& 2 * tick.price@ == update.best_bid_price@ + update.best_ask_price@
                &&& tick.price == update.best_bid_price.midpoint_of(update.best_ask_price)
                &&& tick.symbol == *symbol
                &&& tick.bid_price == update.best_bid_price
                &&& tick.ask_price == update.best_ask_price
                &&& tick.bid_qty == update.best_bid_qty
                &&& tick.ask_qty == update.best_ask_qty
                &&& tick.timestamp == update.event_time
            },
            None => r.1 == standing_action(next_state(state, event)),
        },
{
    match state {
        StreamState::Connecting => match event {
            StreamEvent::Connected => (StreamState::Reading, StreamAction::Read),
            StreamEvent::ConnectFailed => (
                StreamState::Waiting,
                StreamAction::Wait(RECONNECT_DELAY_SECS),
            ),
            _ => (StreamState::Connecting, StreamAction::Connect),
        },
        StreamState::Reading => match event {
            StreamEvent::Update(update) => match to_ticker(symbol, &update) {
                Some(tick) => (StreamState::Reading, StreamAction::Forward(tick)),
                None => (StreamState::Reading, StreamAction::Read),
            },
            StreamEvent::ReadFailed => (
                StreamState::Waiting,
                StreamAction::Wait(RECONNECT_DELAY_SECS),
            ),
            StreamEvent::Ended => (StreamState::Waiting, StreamAction::Wait(RECONNECT_DELAY_SECS)),
            _ => (StreamState::Reading, StreamAction::Read),
        },
        StreamState::Waiting => match event {
            StreamEvent::DelayElapsed => (StreamState::Connecting, StreamAction::Connect),
            _ => (StreamState::Waiting, StreamAction::Wait(RECONNECT_DELAY_SECS)),
        },
    }
}

/// No state is final: whatever happens, the intake asks for something to
/// be done, and after a lost connection that is a pause followed by a new
/// attempt. A malformed message never ends the reading.
pub proof fn lemma_never_gives_up(state: StreamState, event: StreamEvent)
    ensures
        state == StreamState::Reading && (event is ReadFailed || event is Ended) ==> next_state(
            state,
            event,
        ) == StreamState::Waiting,
        state == StreamState::Connecting && event is ConnectFailed ==> next_state(state, event)
            == StreamState::Waiting,
        standing_action(StreamState::Waiting) == StreamAction::Wait(RECONNECT_DELAY_SECS),
        next_state(StreamState::Waiting, StreamEvent::DelayElapsed) == StreamState::Connecting,
        standing_action(StreamState::Connecting) == StreamAction::Connect,
        state == StreamState::Reading && event is Malformed ==> next_state(state, event)
            == StreamState::Reading,
{
}

} // verus!
