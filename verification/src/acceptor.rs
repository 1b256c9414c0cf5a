//! The acceptor and the shutdown flag: when to take a new connection, and
//! when to stop.
//!
//! The acceptor's loop polls the acceptor before each attempt to accept,
//! showing it the flag, and reports what the attempt gave. Once the
//! acceptor has seen the flag down it drains: it takes no connection any
//! more and waits for the handlers that are still open. Handlers never look
//! at the flag; a connection that was open when the flag went down is
//! served until it closes.

use vstd::prelude::*;

verus! {

/// How long the acceptor waits after an attempt that gave no connection, in
/// milliseconds.
pub const ACCEPT_RETRY_MILLIS: u64 = 100;

/// The one value that the whole process shares: up from the start, down
/// from the signal to terminate on. Nothing raises it again.
#[derive(Debug)]
pub struct ShutdownFlag {
    running: bool,
}

impl ShutdownFlag {
    /// Whether the flag is still up.
    pub closed spec fn running(&self) -> bool {
        self.running
    }

    /// The flag at startup: up.
    pub fn new() -> (flag: ShutdownFlag)
        ensures
            flag.running(),
    {
        ShutdownFlag { running: true }
    }

    /// Lowers the flag. On a flag that is down this changes nothing.
    pub fn signal(&mut self)
        ensures
            !final(self).running(),
    {
        self.running = false;
    }

    /// Whether the flag is still up.
    pub fn is_running(&self) -> (running: bool)
        ensures
            running == self.running(),
    {
        self.running
    }
}

/// The state of the acceptor.
#[derive(Debug, Clone, Copy, PartialEq, Eq)]
pub enum AcceptorState {
    /// Taking connections.
    Accepting,
    /// Taking none any more; waiting for the open handlers to close.
    Draining,
    /// Every handler has closed: the process may end.
    Stopped,
}

/// What the acceptor's loop is to do next.
#[derive(Debug, Clone, Copy, PartialEq, Eq)]
pub enum Turn {
    /// Try to accept one connection and report what came of it.
    Accept,
    /// Wait for the open handlers, then report how many are left.
    Drain,
    /// End the process.
    Exit,
}

/// What an attempt to accept a connection gave.
#[derive(Debug, Clone, Copy, PartialEq, Eq)]
pub enum Attempt {
    /// A client connected, and a store handle of its own was opened for it.
    Connected,
    /// A client connected, but no store handle could be opened for it.
    StoreUnavailable,
    /// No client was waiting.
    WouldBlock,
    /// The attempt failed for another reason.
    Failed,
}

/// What to do with the result of an attempt.
#[derive(Debug, Clone, Copy, PartialEq, Eq)]
pub enum Verdict {
    /// Start a handler of its own for the connection, and go on at once.
    Spawn,
    /// Drop the connection.
    Refuse,
    /// Wait for `ACCEPT_RETRY_MILLIS`, then go on.
    Pause,
}

/// The state of an acceptor in `state` once it has been shown the flag.
pub open spec fn polled(state: AcceptorState, running: bool) -> AcceptorState {
    match state {
        AcceptorState::Accepting => if running {
            AcceptorState::Accepting
        } else {
            AcceptorState::Draining
        },
        other => other,
    }
}

/// What the loop is to do in `state`.
pub open spec fn turn(state: AcceptorState) -> Turn {
    match state {
        AcceptorState::Accepting => Turn::Accept,
        AcceptorState::Draining => Turn::Drain,
        AcceptorState::Stopped => Turn::Exit,
    }
}

/// What an acceptor in `state` does with the result of an attempt. No
/// failed attempt ends the loop; only an accepting acceptor starts a
/// handler.
pub open spec fn verdict(state: AcceptorState, attempt: Attempt) -> Verdict {
    match attempt {
        Attempt::Connected => if state == AcceptorState::Accepting {
            Verdict::Spawn
        } else {
            Verdict::Refuse
        },
        Attempt::StoreUnavailable => Verdict::Refuse,
        Attempt::WouldBlock => Verdict::Pause,
        Attempt::Failed => Verdict::Pause,
    }
}

/// The state of an acceptor in `state` once it has been told that `open`
/// handlers are still open.
pub open spec fn drained(state: AcceptorState, open: nat) -> AcceptorState {
    if state == AcceptorState::Draining && open == 0 {
        AcceptorState::Stopped
    } else {
        state
    }
}

/// The decisions of the acceptor's loop.
#[derive(Debug)]
pub struct Acceptor {
    state: AcceptorState,
}

impl Acceptor {
    /// The state of the acceptor.
    pub closed spec fn state(&self) -> AcceptorState {
        self.state
    }

    /// The acceptor at startup: accepting.
    pub fn new() -> (acceptor: Acceptor)
        ensures
            acceptor.state() == AcceptorState::Accepting,
    {
        Acceptor { state: AcceptorState::Accepting }
    }

    /// Whether connections are still taken.
    pub fn is_accepting(&self) -> (accepting: bool)
        ensures
            accepting == (self.state() == AcceptorState::Accepting),
    {
        match self.state {
            AcceptorState::Accepting => true,
            _ => false,
        }
    }

    /// Looks at the flag and says what the loop is to do next.
    pub fn poll(&mut self, flag: &ShutdownFlag) -> (next: Turn)
        ensures
            final(self).state() == polled(old(self).state(), flag.running()),
            next == turn(final(self).state()),
    {
        match self.state {
            AcceptorState::Accepting => {
                if flag.is_running() {
                    Turn::Accept
                } else {
                    self.state = AcceptorState::Draining;
                    Turn::Drain
                }
            },
            AcceptorState::Draining => Turn::Drain,
            AcceptorState::Stopped => Turn::Exit,
        }
    }

    /// Says what to do with the result of an attempt to accept. The state
    /// stays as it is.
    pub fn accepted(&self, attempt: Attempt) -> (what: Verdict)
        ensures
            what == verdict(self.state(), attempt),
    {
        match attempt {
            Attempt::Connected => if self.is_accepting() {
                Verdict::Spawn
            } else {
                Verdict::Refuse
            },
            Attempt::StoreUnavailable => Verdict::Refuse,
            Attempt::WouldBlock => Verdict::Pause,
            Attempt::Failed => Verdict::Pause,
        }
    }

    /// Takes note of how many handlers are still open, and says whether the
    /// process may end: it may once the acceptor drains and none is left.
    pub fn handlers_left(&mut self, open: usize) -> (done: bool)
        ensures
            final(self).state() == drained(old(self).state(), open as nat),
            done == (final(self).state() == AcceptorState::Stopped),
    {
        match self.state {
            AcceptorState::Accepting => false,
            AcceptorState::Draining => {
                if open == 0 {
                    self.state = AcceptorState::Stopped;
                    true
                } else {
                    false
                }
            },
            AcceptorState::Stopped => true,
        }
    }
}

/// One thing that happens to the acceptor.
pub enum AcceptorEvent {
    /// It was polled, with the flag as given.
    Polled { running: bool },
    /// It was told how many handlers are open.
    HandlersLeft { open: nat },
}

/// The state of an acceptor that was in `state` before `events` happened to
/// it in this order.
pub open spec fn acceptor_state_after(state: AcceptorState, events: Seq<AcceptorEvent>)
    -> AcceptorState
    decreases events.len(),
{
    if events.len() == 0 {
        state
    } else {
        let before = acceptor_state_after(state, events.drop_last());
        match events.last() {
            AcceptorEvent::Polled { running } => polled(before, running),
            AcceptorEvent::HandlersLeft { open } => drained(before, open),
        }
    }
}

/// An acceptor that is polled with the flag down accepts no more.
pub proof fn lemma_flag_down_stops_accepting(state: AcceptorState)
    ensures
        polled(state, false) != AcceptorState::Accepting,
        turn(polled(state, false)) != Turn::Accept,
{
}

/// There is no way back: whatever happens to an acceptor that has stopped
/// accepting, it never accepts again. It is never told to try, and it
/// starts no handler for a connection that is reported to it all the same.
pub proof fn lemma_no_connection_after_shutdown(
    state: AcceptorState,
    events: Seq<AcceptorEvent>,
    attempt: Attempt,
)
    requires
        state != AcceptorState::Accepting,
    ensures
        acceptor_state_after(state, events) != AcceptorState::Accepting,
        turn(acceptor_state_after(state, events)) != Turn::Accept,
        verdict(acceptor_state_after(state, events), attempt) != Verdict::Spawn,
    decreases events.len(),
{
    if events.len() > 0 {
        lemma_no_connection_after_shutdown(state, events.drop_last(), attempt);
    }
}

/// The process ends only when no handler is left: an acceptor stops only
/// out of draining, and only on the report that none is open.
pub proof fn lemma_exit_waits_for_handlers(state: AcceptorState, event: AcceptorEvent)
    requires
        state != AcceptorState::Stopped,
    ensures
        acceptor_state_after(state, seq![event]) == AcceptorState::Stopped <==> {
            &&& state == AcceptorState::Draining
            &&& event == (AcceptorEvent::HandlersLeft { open: 0 })
        },
{
    assert(seq![event].drop_last() =~= Seq::<AcceptorEvent>::empty());
    assert(acceptor_state_after(state, Seq::<AcceptorEvent>::empty()) == state);
}

} // verus!
