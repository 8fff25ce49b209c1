//! The handshake latch: a one-shot signal that opens when the server has
//! acknowledged the start of the session, and stays open.

use vstd::prelude::*;

verus! {

/// How far the handshake of a session has come.
#[derive(Clone, Copy, Debug, PartialEq, Eq, Structural)]
pub enum HandshakeState {
    /// No start request has been submitted.
    NotStarted,
    /// The start request is out and the acknowledgement has not come.
    Awaiting,
    /// The server has acknowledged the start.
    Started,
}

impl HandshakeState {
    /// The position of the state in the order in which a session passes
    /// through the states.
    pub open spec fn rank(self) -> nat {
        match self {
            HandshakeState::NotStarted => 0,
            HandshakeState::Awaiting => 1,
            HandshakeState::Started => 2,
        }
    }
}

/// What can happen to a latch.
#[derive(Clone, Copy, Debug, PartialEq, Eq, Structural)]
pub enum LatchEvent {
    /// The start request was submitted.
    Requested,
    /// The server's acknowledgement was observed.
    Acknowledged,
}

/// The state after `event` has happened in `state`.
pub open spec fn after(state: HandshakeState, event: LatchEvent) -> HandshakeState {
    match event {
        LatchEvent::Requested => if state == HandshakeState::NotStarted {
            HandshakeState::Awaiting
        } else {
            state
        },
        LatchEvent::Acknowledged => HandshakeState::Started,
    }
}

/// Whether `event`, happening in `state`, opens the latch: only the first
/// acknowledgement does.
pub open spec fn opens(state: HandshakeState, event: LatchEvent) -> bool {
    event == LatchEvent::Acknowledged && state != HandshakeState::Started
}

/// The state after all of `events` have happened in `state`, in order.
pub open spec fn after_all(state: HandshakeState, events: Seq<LatchEvent>) -> HandshakeState
    decreases events.len(),
{
    if events.len() == 0 {
        state
    } else {
        after(after_all(state, events.drop_last()), events.last())
    }
}

/// How many of `events`, happening in `state` in order, open the latch.
pub open spec fn openings(state: HandshakeState, events: Seq<LatchEvent>) -> nat
    decreases events.len(),
{
    if events.len() == 0 {
        0
    } else {
        let earlier = openings(state, events.drop_last());
        if opens(after_all(state, events.drop_last()), events.last()) {
            earlier + 1
        } else {
            earlier
        }
    }
}

/// The latch of one session. Its state can only be moved through
/// `request` and `acknowledge`, so it never goes back.
#[derive(Debug)]
pub struct HandshakeLatch {
    state: HandshakeState,
}

impl View for HandshakeLatch {
    type V = HandshakeState;

    closed spec fn view(&self) -> HandshakeState {
        self.state
    }
}

impl HandshakeLatch {
    /// A latch on which nothing has happened yet.
    pub fn new() -> (latch: HandshakeLatch)
        ensures
            latch@ == HandshakeState::NotStarted,
    {
        HandshakeLatch { state: HandshakeState::NotStarted }
    }

    /// The state of the latch.
    pub fn state(&self) -> (state: HandshakeState)
        ensures
            state == self@,
    {
        self.state
    }

    /// Whether the latch is open.
    pub fn is_started(&self) -> (open: bool)
        ensures
            open == (self@ == HandshakeState::Started),
    {
        match self.state {
            HandshakeState::Started => true,
            _ => false,
        }
    }

    /// Records that the start request was submitted.
    pub fn request(&mut self)
        ensures
            final(self)@ == after(old(self)@, LatchEvent::Requested),
    {
        match self.state {
            HandshakeState::NotStarted => {
                self.state = HandshakeState::Awaiting;
            },
            _ => {},
        }
    }

    /// Records the server's acknowledgement. Returns whether this call
    /// opened the latch, that is, whether waiting callers are to be woken.
    pub fn acknowledge(&mut self) -> (opened: bool)
        ensures
            final(self)@ == after(old(self)@, LatchEvent::Acknowledged),
            opened == opens(old(self)@, LatchEvent::Acknowledged),
    {
        let opened = !self.is_started();
        self.state = HandshakeState::Started;
        opened
    }
}

/// The handshake only moves forward: whatever happens, the state is not
/// earlier than it was.
pub proof fn lemma_latch_forward(state: HandshakeState, events: Seq<LatchEvent>)
    ensures
        state.rank() <= after_all(state, events).rank(),
    decreases events.len(),
{
    if events.len() > 0 {
        lemma_latch_forward(state, events.drop_last());
    }
}

/// Once open, the latch stays open.
pub proof fn lemma_latch_stays_open(events: Seq<LatchEvent>)
    ensures
        after_all(HandshakeState::Started, events) == HandshakeState::Started,
    decreases events.len(),
{
    if events.len() > 0 {
        lemma_latch_stays_open(events.drop_last());
    }
}

/// The latch opens at most once in a session, and it has opened exactly
/// once when it is open at the end and was not at the beginning.
pub proof fn lemma_latch_opens_once(state: HandshakeState, events: Seq<LatchEvent>)
    ensures
        openings(state, events) <= 1,
        openings(state, events) == 1 <==> (state != HandshakeState::Started && after_all(
            state,
            events,
        ) == HandshakeState::Started),
    decreases events.len(),
{
    if events.len() > 0 {
        lemma_latch_opens_once(state, events.drop_last());
        lemma_latch_forward(state, events.drop_last());
    }
}

} // verus!
