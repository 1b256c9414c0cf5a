//! The connection handler: what to do with each thing that happens on one
//! client's connection.
//!
//! The handler itself reads from the stream and writes to the store; it
//! tells a `Session` what happened and does what the session answers. A
//! session is either reading or closing. Only the end of the stream or a
//! failed read closes it: no line does, whatever it holds, and no answer of
//! the store does.

use crate::decoder::{decode, decode_outcome, WireFormat};
use crate::outcome::{DecodeOutcome, Outcome};
use crate::record::{Reading, Record};
use crate::text::{chars_of, trim_bounds, trimmed};
use vstd::prelude::*;

verus! {

/// How long a read waits for the next line before it reports a timeout, in
/// seconds.
pub const IDLE_TIMEOUT_SECS: u64 = 300;

/// How long the handler waits before it reads again after a read that
/// would have blocked, in milliseconds.
pub const READ_RETRY_MILLIS: u64 = 10;

/// The state of one connection.
#[derive(Debug, Clone, Copy, PartialEq, Eq)]
pub enum ConnectionState {
    /// Waiting for the next line.
    Reading,
    /// Done: the stream and the store handle are to be released.
    Closing,
}

/// What happened on the connection.
#[derive(Debug, Clone, PartialEq, Eq)]
pub enum Event {
    /// A line was read. It is given without its line end.
    Line(String),
    /// No line came within the idle timeout.
    TimedOut,
    /// The read would have blocked.
    WouldBlock,
    /// The client closed the stream.
    EndOfStream,
    /// The read failed for another reason than the two above.
    Failed,
    /// The store took the reading that was handed to it.
    Stored,
    /// The store refused the reading that was handed to it.
    StoreFailed,
}

/// Why there is nothing to do but to read on.
#[derive(Debug, Clone, PartialEq, Eq)]
pub enum Reason {
    /// The line was empty, or white space only.
    Blank,
    /// The line was a keepalive.
    Keepalive,
    /// The line, trimmed, could not be decoded.
    Malformed(String),
    /// No line came in time. This alone ends nothing.
    TimedOut,
    /// The reading is in the store.
    Stored,
    /// The reading is lost: it is not handed to the store again.
    StoreFailed,
}

/// What the handler is to do next.
#[derive(Debug, Clone, PartialEq, Eq)]
pub enum Action {
    /// Hand the reading to the store, report what the store answered, and
    /// read on.
    Store(Record),
    /// Read on.
    ReadOn(Reason),
    /// Wait for `READ_RETRY_MILLIS`, then read on.
    Pause,
    /// Release the stream and the store handle, and end.
    Close,
}

/// An event as a mathematical value.
pub enum EventView {
    Line(Seq<char>),
    TimedOut,
    WouldBlock,
    EndOfStream,
    Failed,
    Stored,
    StoreFailed,
}

/// A reason as a mathematical value.
pub enum ReasonView {
    Blank,
    Keepalive,
    Malformed(Seq<char>),
    TimedOut,
    Stored,
    StoreFailed,
}

/// An action as a mathematical value.
pub enum ActionView {
    Store(Reading),
    ReadOn(ReasonView),
    Pause,
    Close,
}

impl View for Event {
    type V = EventView;

    open spec fn view(&self) -> EventView {
        match self {
            Event::Line(line) => EventView::Line(line@),
            Event::TimedOut => EventView::TimedOut,
            Event::WouldBlock => EventView::WouldBlock,
            Event::EndOfStream => EventView::EndOfStream,
            Event::Failed => EventView::Failed,
            Event::Stored => EventView::Stored,
            Event::StoreFailed => EventView::StoreFailed,
        }
    }
}

impl View for Reason {
    type V = ReasonView;

    open spec fn view(&self) -> ReasonView {
        match self {
            Reason::Blank => ReasonView::Blank,
            Reason::Keepalive => ReasonView::Keepalive,
            Reason::Malformed(line) => ReasonView::Malformed(line@),
            Reason::TimedOut => ReasonView::TimedOut,
            Reason::Stored => ReasonView::Stored,
            Reason::StoreFailed => ReasonView::StoreFailed,
        }
    }
}

impl View for Action {
    type V = ActionView;

    open spec fn view(&self) -> ActionView {
        match self {
            Action::Store(record) => ActionView::Store(record@),
            Action::ReadOn(reason) => ActionView::ReadOn(reason@),
            Action::Pause => ActionView::Pause,
            Action::Close => ActionView::Close,
        }
    }
}

/// What a line that was read asks for: nothing where it is blank, else
/// what it decodes to once the white space at its ends is cut off.
pub open spec fn line_action(format: WireFormat, raw: Seq<char>) -> ActionView {
    let line = trimmed(raw);
    if line.len() == 0 {
        ActionView::ReadOn(ReasonView::Blank)
    } else {
        match decode_outcome(format, line) {
            Outcome::Record(reading) => ActionView::Store(reading),
            Outcome::Keepalive => ActionView::ReadOn(ReasonView::Keepalive),
            Outcome::Malformed(rejected) => ActionView::ReadOn(ReasonView::Malformed(rejected)),
        }
    }
}

/// What a connection in state `state` answers to `event`. A closing
/// connection answers everything with `Close`.
pub open spec fn reaction(format: WireFormat, state: ConnectionState, event: EventView)
    -> ActionView {
    match state {
        ConnectionState::Closing => ActionView::Close,
        ConnectionState::Reading => match event {
            EventView::Line(raw) => line_action(format, raw),
            EventView::TimedOut => ActionView::ReadOn(ReasonView::TimedOut),
            EventView::WouldBlock => ActionView::Pause,
            EventView::EndOfStream => ActionView::Close,
            EventView::Failed => ActionView::Close,
            EventView::Stored => ActionView::ReadOn(ReasonView::Stored),
            EventView::StoreFailed => ActionView::ReadOn(ReasonView::StoreFailed),
        },
    }
}

/// The state that a connection is in once it has answered with `action`.
pub open spec fn state_after(action: ActionView) -> ConnectionState {
    if action is Close {
        ConnectionState::Closing
    } else {
        ConnectionState::Reading
    }
}

/// The decisions of one connection's handler.
#[derive(Debug)]
pub struct Session {
    format: WireFormat,
    state: ConnectionState,
}

impl Session {
    /// The encoding of the connection's lines.
    pub closed spec fn format(&self) -> WireFormat {
        self.format
    }

    /// The state of the connection.
    pub closed spec fn state(&self) -> ConnectionState {
        self.state
    }

    /// The session of a connection that was just accepted.
    pub fn new(format: WireFormat) -> (session: Session)
        ensures
            session.format() == format,
            session.state() == ConnectionState::Reading,
    {
        Session { format, state: ConnectionState::Reading }
    }

    /// Whether the connection is still read from.
    pub fn is_open(&self) -> (open: bool)
        ensures
            open == (self.state() == ConnectionState::Reading),
    {
        match self.state {
            ConnectionState::Reading => true,
            ConnectionState::Closing => false,
        }
    }

    /// Decodes a line that was read and says what to do with it.
    fn handle_line(&self, raw: &str) -> (action: Action)
        ensures
            action@ == line_action(self.format(), raw@),
    {
        let chars = chars_of(raw);
        let (from, to) = trim_bounds(chars.as_slice());
        if from == to {
            return Action::ReadOn(Reason::Blank);
        }
        match decode(self.format, raw.substring_char(from, to)) {
            DecodeOutcome::Record(record) => Action::Store(record),
            DecodeOutcome::Keepalive => Action::ReadOn(Reason::Keepalive),
            DecodeOutcome::Malformed(rejected) => Action::ReadOn(Reason::Malformed(rejected)),
        }
    }

    /// Takes note of `event` and says what the handler is to do next.
    pub fn handle(&mut self, event: Event) -> (action: Action)
        ensures
            action@ == reaction(old(self).format(), old(self).state(), event@),
            final(self).state() == state_after(action@),
            final(self).format() == old(self).format(),
    {
        if !self.is_open() {
            return Action::Close;
        }
        let action = match event {
            Event::Line(raw) => self.handle_line(raw.as_str()),
            Event::TimedOut => Action::ReadOn(Reason::TimedOut),
            Event::WouldBlock => Action::Pause,
            Event::EndOfStream => Action::Close,
            Event::Failed => Action::Close,
            Event::Stored => Action::ReadOn(Reason::Stored),
            Event::StoreFailed => Action::ReadOn(Reason::StoreFailed),
        };
        if let Action::Close = action {
            self.state = ConnectionState::Closing;
        }
        action
    }
}

/// The state of a connection that has handled `events` in this order since
/// it was accepted.
pub open spec fn state_reached(format: WireFormat, events: Seq<EventView>) -> ConnectionState
    decreases events.len(),
{
    if events.len() == 0 {
        ConnectionState::Reading
    } else {
        state_after(
            reaction(format, state_reached(format, events.drop_last()), events.last()),
        )
    }
}

/// What the connection answered to the event at position `at`.
pub open spec fn answer(format: WireFormat, events: Seq<EventView>, at: int) -> ActionView {
    reaction(format, state_reached(format, events.take(at)), events[at])
}

/// The readings that the connection handed to the store while it handled
/// `events`, in the order in which it handed them over.
pub open spec fn handed_over(format: WireFormat, events: Seq<EventView>) -> Seq<Reading>
    decreases events.len(),
{
    if events.len() == 0 {
        Seq::empty()
    } else {
        let before = handed_over(format, events.drop_last());
        match answer(format, events, events.len() - 1) {
            ActionView::Store(reading) => before.push(reading),
            _ => before,
        }
    }
}

/// The positions of the events that the connection answered by handing a
/// reading to the store, in the same order.
pub open spec fn store_positions(format: WireFormat, events: Seq<EventView>) -> Seq<int>
    decreases events.len(),
{
    if events.len() == 0 {
        Seq::empty()
    } else {
        let before = store_positions(format, events.drop_last());
        match answer(format, events, events.len() - 1) {
            ActionView::Store(reading) => before.push(events.len() - 1),
            _ => before,
        }
    }
}

/// Only a reading is handed to the store: the connection answers with
/// `Store` to a line that decodes to that reading, and to nothing else. A
/// blank line, a keepalive and a malformed line store nothing.
pub proof fn lemma_only_readings_are_stored(
    format: WireFormat,
    state: ConnectionState,
    event: EventView,
    reading: Reading,
)
    ensures
        reaction(format, state, event) == ActionView::Store(reading) <==> {
            &&& state == ConnectionState::Reading
            &&& event matches EventView::Line(raw)
            &&& trimmed(raw).len() > 0
            &&& decode_outcome(format, trimmed(raw)) == Outcome::Record(reading)
        },
{
}

/// No line closes a connection, and no answer of the store does: a reading
/// connection goes on reading after every event but the end of the stream
/// and a failed read.
pub proof fn lemma_only_the_stream_closes(
    format: WireFormat,
    event: EventView,
)
    ensures
        state_after(reaction(format, ConnectionState::Reading, event))
            == ConnectionState::Closing <==> (event is EndOfStream || event is Failed),
{
}

/// What was answered to an event does not depend on the events after it.
proof fn lemma_answer_of_prefix(format: WireFormat, events: Seq<EventView>, at: int)
    requires
        0 <= at < events.len() - 1,
    ensures
        answer(format, events.drop_last(), at) == answer(format, events, at),
{
    assert(events.drop_last().take(at) =~= events.take(at));
}

/// Readings are handed to the store in the order in which their lines
/// arrived, none of them twice and none left out: the reading at place `i`
/// was the answer to the event at `store_positions(..)[i]`, these positions
/// rise, and every event that was answered with a reading is among them.
pub proof fn lemma_stored_in_arrival_order(format: WireFormat, events: Seq<EventView>)
    ensures
        store_positions(format, events).len() == handed_over(format, events).len(),
        forall|i: int|
            0 <= i < handed_over(format, events).len() ==> {
                let at = #[trigger] store_positions(format, events)[i];
                &&& 0 <= at < events.len()
                &&& answer(format, events, at) == ActionView::Store(
                    handed_over(format, events)[i],
                )
            },
        forall|i: int, j: int|
            0 <= i < j < store_positions(format, events).len() ==> store_positions(
                format,
                events,
            )[i] < store_positions(format, events)[j],
        forall|at: int|
            0 <= at < events.len() && #[trigger] answer(format, events, at) is Store
                ==> store_positions(format, events).contains(at),
    decreases events.len(),
{
    if events.len() > 0 {
        let before = events.drop_last();
        let last = events.len() - 1;
        lemma_stored_in_arrival_order(format, before);
        let positions = store_positions(format, events);
        let earlier = store_positions(format, before);
        assert forall|i: int| 0 <= i < earlier.len() implies answer(format, events, earlier[i])
            == answer(format, before, earlier[i]) by {
            lemma_answer_of_prefix(format, events, earlier[i]);
        }
        assert forall|at: int|
            0 <= at < events.len() && #[trigger] answer(
                format,
                events,
                at,
            ) is Store implies positions.contains(at) by {
            if at < last {
                lemma_answer_of_prefix(format, events, at);
                let i = choose|i: int| 0 <= i < earlier.len() && earlier[i] == at;
                assert(positions[i] == at);
            } else {
                assert(positions[positions.len() - 1] == at);
            }
        }
    }
}

/// Closing is final: once a connection has closed it answers every event
/// with `Close`, and hands nothing more to the store.
pub proof fn lemma_closing_is_final(format: WireFormat, events: Seq<EventView>, closed: int)
    requires
        0 <= closed <= events.len(),
        state_reached(format, events.take(closed)) == ConnectionState::Closing,
    ensures
        state_reached(format, events) == ConnectionState::Closing,
        forall|at: int| closed <= at < events.len() ==> answer(format, events, at) == ActionView::Close,
        handed_over(format, events) == handed_over(format, events.take(closed)),
    decreases events.len() - closed,
{
    if closed < events.len() {
        let next = events.take(closed + 1);
        assert(next.take(closed) =~= events.take(closed));
        lemma_closing_is_final(format, events, closed + 1);
    } else {
        assert(events.take(closed) =~= events);
    }
}

} // verus!
