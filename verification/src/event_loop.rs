//! The decisions of a session's orchestration loop.
//!
//! The loop alternates between two queues. It first drains the requests that
//! callers have submitted, handing each to the connection; when that queue
//! stays silent for one bounded wait it turns to the lines that the
//! connection has read, and classifies each. Whoever runs the loop polls the
//! queue that `Orchestrator::source` names with a wait of
//! `POLL_TIMEOUT_MILLIS`, hands what came of it to `Orchestrator::step`, and
//! carries out the action that comes back.
//!
//! A line that is no response of the protocol ends the session, not the
//! process: the loop stops and has the connection shut down, the line goes
//! nowhere, and a caller that waits for an answer finds the results queue
//! closed and gets a `ProcessingError`. Only lines that the grammar knows
//! ever reach the results queue. Skipping such a line and reading on would
//! leave a caller waiting for an answer that has already come in a form
//! that nobody understood, and would hide a server that speaks another
//! protocol; ending the process would make one odd line an outage of
//! everything else the program does. After such a line the way on is a new
//! session.

use vstd::prelude::*;
use vstd::string::*;
use crate::client::{parse_line, ResponseMessage, ResponseView};
use crate::latch::{after, HandshakeState, LatchEvent};

verus! {

/// How long one poll of a queue waits before it gives up, in milliseconds.
pub const POLL_TIMEOUT_MILLIS: u64 = 10;

/// The two queues that the loop reads.
#[derive(Clone, Copy, Debug, PartialEq, Eq, Structural)]
pub enum Source {
    /// The requests that callers have submitted.
    Outbound,
    /// The lines that the connection has read.
    Inbound,
}

/// Where the loop stands.
#[derive(Clone, Copy, Debug, PartialEq, Eq, Structural)]
pub enum Phase {
    DrainOutbound,
    DrainInbound,
    /// The loop has ended; the connection has been told to shut down.
    Stopped,
}

impl Phase {
    /// The queue that is polled in this phase.
    pub open spec fn source(self) -> Option<Source> {
        match self {
            Phase::DrainOutbound => Some(Source::Outbound),
            Phase::DrainInbound => Some(Source::Inbound),
            Phase::Stopped => None,
        }
    }
}

/// What one poll of a queue came to, as a mathematical value.
pub enum PolledView {
    Item(Seq<char>),
    Timeout,
    Disconnected,
}

/// What one poll of a queue came to.
#[derive(Debug)]
pub enum Polled {
    /// The queue held this item.
    Item(String),
    /// The queue stayed empty for the whole wait.
    Timeout,
    /// The queue is empty and nobody can fill it any more.
    Disconnected,
}

impl View for Polled {
    type V = PolledView;

    open spec fn view(&self) -> PolledView {
        match self {
            Polled::Item(item) => PolledView::Item(item@),
            Polled::Timeout => PolledView::Timeout,
            Polled::Disconnected => PolledView::Disconnected,
        }
    }
}

/// What the loop asks for after a poll, as a mathematical value.
pub enum ActionView {
    Write(Seq<char>),
    Publish(Seq<char>),
    SignalStarted,
    Idle,
    Teardown,
}

/// What the loop asks for after a poll.
#[derive(Debug)]
pub enum Action {
    /// Hand this request to the connection.
    Write(String),
    /// Put this line on the results queue.
    Publish(String),
    /// Open the handshake latch and wake those who wait on it.
    SignalStarted,
    /// Nothing to do.
    Idle,
    /// Shut the connection down; the loop has ended.
    Teardown,
}

impl View for Action {
    type V = ActionView;

    open spec fn view(&self) -> ActionView {
        match self {
            Action::Write(line) => ActionView::Write(line@),
            Action::Publish(line) => ActionView::Publish(line@),
            Action::SignalStarted => ActionView::SignalStarted,
            Action::Idle => ActionView::Idle,
            Action::Teardown => ActionView::Teardown,
        }
    }
}

/// What becomes of one inbound line.
#[derive(Clone, Copy, Debug, PartialEq, Eq, Structural)]
pub enum Disposition {
    /// Dropped: the line only accompanies the session.
    Discard,
    /// Dropped, after the handshake latch has been opened.
    OpenLatch,
    /// Dropped, and the pass over the inbound lines ends.
    EndPass,
    /// Passed on to the results queue.
    Forward,
    /// Passed on to the results queue, and the pass ends.
    ForwardAndEndPass,
    /// Dropped, and the loop ends: the line is no response of the protocol.
    Reject,
}

impl Disposition {
    /// Whether a line of this disposition reaches the results queue.
    pub open spec fn forwards(self) -> bool {
        self == Disposition::Forward || self == Disposition::ForwardAndEndPass
    }

    /// Whether the pass over the inbound lines goes on after such a line.
    pub open spec fn continues(self) -> bool {
        self == Disposition::Discard || self == Disposition::OpenLatch || self
            == Disposition::Forward
    }
}

/// What becomes of the inbound line `line`: the lines that accompany the
/// session are dropped, the server's answers are passed on, and a line that
/// is no response of the protocol is rejected.
pub open spec fn disposition(line: Seq<char>) -> Disposition {
    match parse_line(line) {
        Some(ResponseView::Connected) => Disposition::Discard,
        Some(ResponseView::Started) => Disposition::OpenLatch,
        Some(ResponseView::Pending(_)) => Disposition::Discard,
        Some(ResponseView::Ended) => Disposition::EndPass,
        Some(ResponseView::Event(_)) => Disposition::Forward,
        Some(ResponseView::Result) => Disposition::Forward,
        Some(ResponseView::Okay) => Disposition::Forward,
        Some(ResponseView::Error) => Disposition::ForwardAndEndPass,
        None => Disposition::Reject,
    }
}

/// Classifies one inbound line.
pub fn classify(line: &str) -> (d: Disposition)
    ensures
        d == disposition(line@),
{
    match ResponseMessage::parse(String::from_str(line)) {
        Ok(ResponseMessage::Connected) => Disposition::Discard,
        Ok(ResponseMessage::Started) => Disposition::OpenLatch,
        Ok(ResponseMessage::Pending(_)) => Disposition::Discard,
        Ok(ResponseMessage::Ended) => Disposition::EndPass,
        Ok(ResponseMessage::Event(_)) => Disposition::Forward,
        Ok(ResponseMessage::Result) => Disposition::Forward,
        Ok(ResponseMessage::Okay) => Disposition::Forward,
        Ok(ResponseMessage::Error) => Disposition::ForwardAndEndPass,
        Err(_) => Disposition::Reject,
    }
}

/// The phase that follows `phase` when a poll of its queue came to `polled`.
pub open spec fn next_phase(phase: Phase, polled: PolledView) -> Phase {
    match phase {
        Phase::Stopped => Phase::Stopped,
        Phase::DrainOutbound => match polled {
            PolledView::Item(_) => Phase::DrainOutbound,
            PolledView::Timeout => Phase::DrainInbound,
            PolledView::Disconnected => Phase::Stopped,
        },
        Phase::DrainInbound => match polled {
            PolledView::Item(line) => if disposition(line).continues() {
                Phase::DrainInbound
            } else if disposition(line) == Disposition::Reject {
                Phase::Stopped
            } else {
                Phase::DrainOutbound
            },
            PolledView::Timeout => Phase::DrainOutbound,
            PolledView::Disconnected => Phase::Stopped,
        },
    }
}

/// What is to be done when a poll in `phase` came to `polled`.
pub open spec fn action(phase: Phase, polled: PolledView) -> ActionView {
    match phase {
        Phase::Stopped => ActionView::Idle,
        Phase::DrainOutbound => match polled {
            PolledView::Item(request) => ActionView::Write(request),
            PolledView::Timeout => ActionView::Idle,
            PolledView::Disconnected => ActionView::Teardown,
        },
        Phase::DrainInbound => match polled {
            PolledView::Item(line) => if disposition(line).forwards() {
                ActionView::Publish(line)
            } else if disposition(line) == Disposition::OpenLatch {
                ActionView::SignalStarted
            } else if disposition(line) == Disposition::Reject {
                ActionView::Teardown
            } else {
                ActionView::Idle
            },
            PolledView::Timeout => ActionView::Idle,
            PolledView::Disconnected => ActionView::Teardown,
        },
    }
}

/// The loop of one session.
#[derive(Debug)]
pub struct Orchestrator {
    phase: Phase,
}

impl View for Orchestrator {
    type V = Phase;

    closed spec fn view(&self) -> Phase {
        self.phase
    }
}

impl Orchestrator {
    /// A loop that has not polled yet: it begins with the callers' requests.
    pub fn new() -> (o: Orchestrator)
        ensures
            o@ == Phase::DrainOutbound,
    {
        Orchestrator { phase: Phase::DrainOutbound }
    }

    /// Where the loop stands.
    pub fn phase(&self) -> (phase: Phase)
        ensures
            phase == self@,
    {
        self.phase
    }

    /// The queue to poll next, or `None` when the loop has ended.
    pub fn source(&self) -> (source: Option<Source>)
        ensures
            source == self@.source(),
    {
        match self.phase {
            Phase::DrainOutbound => Some(Source::Outbound),
            Phase::DrainInbound => Some(Source::Inbound),
            Phase::Stopped => None,
        }
    }

    /// Takes what the poll of the current queue came to, moves on, and says
    /// what is to be done.
    pub fn step(&mut self, polled: Polled) -> (act: Action)
        ensures
            final(self)@ == next_phase(old(self)@, polled@),
            act@ == action(old(self)@, polled@),
    {
        match self.phase {
            Phase::Stopped => Action::Idle,
            Phase::DrainOutbound => match polled {
                Polled::Item(request) => Action::Write(request),
                Polled::Timeout => {
                    self.phase = Phase::DrainInbound;
                    Action::Idle
                },
                Polled::Disconnected => {
                    self.phase = Phase::Stopped;
                    Action::Teardown
                },
            },
            Phase::DrainInbound => match polled {
                Polled::Item(line) => match classify(line.as_str()) {
                    Disposition::Discard => Action::Idle,
                    Disposition::OpenLatch => Action::SignalStarted,
                    Disposition::EndPass => {
                        self.phase = Phase::DrainOutbound;
                        Action::Idle
                    },
                    Disposition::Forward => Action::Publish(line),
                    Disposition::ForwardAndEndPass => {
                        self.phase = Phase::DrainOutbound;
                        Action::Publish(line)
                    },
                    Disposition::Reject => {
                        self.phase = Phase::Stopped;
                        Action::Teardown
                    },
                },
                Polled::Timeout => {
                    self.phase = Phase::DrainOutbound;
                    Action::Idle
                },
                Polled::Disconnected => {
                    self.phase = Phase::Stopped;
                    Action::Teardown
                },
            },
        }
    }
}

/// The phase of a loop that began in `phase` and has made `polls`, in order.
pub open spec fn phase_after(phase: Phase, polls: Seq<PolledView>) -> Phase
    decreases polls.len(),
{
    if polls.len() == 0 {
        phase
    } else {
        next_phase(phase_after(phase, polls.drop_last()), polls.last())
    }
}

/// The requests that such a loop has taken from the callers' queue, in the
/// order in which it took them.
pub open spec fn submitted(phase: Phase, polls: Seq<PolledView>) -> Seq<Seq<char>>
    decreases polls.len(),
{
    if polls.len() == 0 {
        Seq::<Seq<char>>::empty()
    } else {
        let earlier = submitted(phase, polls.drop_last());
        let before = phase_after(phase, polls.drop_last());
        match polls.last() {
            PolledView::Item(request) => if before.source() == Some(Source::Outbound) {
                earlier.push(request)
            } else {
                earlier
            },
            _ => earlier,
        }
    }
}

/// The lines that such a loop has taken from the connection's queue, in the
/// order in which it took them.
pub open spec fn received(phase: Phase, polls: Seq<PolledView>) -> Seq<Seq<char>>
    decreases polls.len(),
{
    if polls.len() == 0 {
        Seq::<Seq<char>>::empty()
    } else {
        let earlier = received(phase, polls.drop_last());
        let before = phase_after(phase, polls.drop_last());
        match polls.last() {
            PolledView::Item(line) => if before.source() == Some(Source::Inbound) {
                earlier.push(line)
            } else {
                earlier
            },
            _ => earlier,
        }
    }
}

/// The actions that such a loop has asked for, one for each poll.
pub open spec fn actions(phase: Phase, polls: Seq<PolledView>) -> Seq<ActionView>
    decreases polls.len(),
{
    if polls.len() == 0 {
        Seq::<ActionView>::empty()
    } else {
        actions(phase, polls.drop_last()).push(
            action(phase_after(phase, polls.drop_last()), polls.last()),
        )
    }
}

/// The requests among `acts` that were handed to the connection, in order.
pub open spec fn written(acts: Seq<ActionView>) -> Seq<Seq<char>>
    decreases acts.len(),
{
    if acts.len() == 0 {
        Seq::<Seq<char>>::empty()
    } else {
        match acts.last() {
            ActionView::Write(request) => written(acts.drop_last()).push(request),
            _ => written(acts.drop_last()),
        }
    }
}

/// The lines among `acts` that were put on the results queue, in order.
pub open spec fn published(acts: Seq<ActionView>) -> Seq<Seq<char>>
    decreases acts.len(),
{
    if acts.len() == 0 {
        Seq::<Seq<char>>::empty()
    } else {
        match acts.last() {
            ActionView::Publish(line) => published(acts.drop_last()).push(line),
            _ => published(acts.drop_last()),
        }
    }
}

/// How often `act` occurs among `acts`.
pub open spec fn count(acts: Seq<ActionView>, act: ActionView) -> nat
    decreases acts.len(),
{
    if acts.len() == 0 {
        0
    } else if acts.last() == act {
        count(acts.drop_last(), act) + 1
    } else {
        count(acts.drop_last(), act)
    }
}

/// Whether a line reaches the results queue.
pub open spec fn is_forwarded() -> spec_fn(Seq<char>) -> bool {
    |line: Seq<char>| disposition(line).forwards()
}

/// Whether a line is the server's acknowledgement of the session's start.
pub open spec fn is_acknowledgement() -> spec_fn(Seq<char>) -> bool {
    |line: Seq<char>| disposition(line) == Disposition::OpenLatch
}

/// Requests reach the connection in the order in which they were submitted:
/// what the loop hands to the connection is what it took from the callers'
/// queue, nothing dropped, nothing added, nothing moved.
pub proof fn lemma_requests_in_order(phase: Phase, polls: Seq<PolledView>)
    ensures
        written(actions(phase, polls)) == submitted(phase, polls),
    decreases polls.len(),
{
    if polls.len() > 0 {
        lemma_requests_in_order(phase, polls.drop_last());
        let acts = actions(phase, polls);
        assert(acts.drop_last() =~= actions(phase, polls.drop_last()));
    }
}

/// Results reach the callers in the order in which the server sent them:
/// what the loop puts on the results queue is what it took from the
/// connection's queue, less the lines that only accompany the session.
pub proof fn lemma_results_in_order(phase: Phase, polls: Seq<PolledView>)
    ensures
        published(actions(phase, polls)) == received(phase, polls).filter(is_forwarded()),
    decreases polls.len(),
{
    reveal(Seq::filter);
    if polls.len() > 0 {
        lemma_results_in_order(phase, polls.drop_last());
        let acts = actions(phase, polls);
        assert(acts.drop_last() =~= actions(phase, polls.drop_last()));
        let earlier = received(phase, polls.drop_last());
        let before = phase_after(phase, polls.drop_last());
        match polls.last() {
            PolledView::Item(line) => {
                if before.source() == Some(Source::Inbound) {
                    assert(earlier.push(line).drop_last() =~= earlier);
                }
            },
            _ => {},
        }
    }
}

/// Only responses reach the results queue: every line that the loop puts
/// there is an event, a result, an `OK` or an `ERR` of the grammar, and no
/// line that the grammar does not know is ever among them.
pub proof fn lemma_published_are_responses(phase: Phase, polls: Seq<PolledView>)
    ensures
        forall|i: int|
            0 <= i < published(actions(phase, polls)).len() ==> {
                let line = #[trigger] published(actions(phase, polls))[i];
                &&& parse_line(line) is Some
                &&& disposition(line).forwards()
            },
    decreases polls.len(),
{
    if polls.len() > 0 {
        lemma_published_are_responses(phase, polls.drop_last());
        let acts = actions(phase, polls);
        assert(acts.drop_last() =~= actions(phase, polls.drop_last()));
        let earlier = published(acts.drop_last());
        assert forall|i: int| 0 <= i < published(acts).len() implies {
            let line = #[trigger] published(acts)[i];
            &&& parse_line(line) is Some
            &&& disposition(line).forwards()
        } by {
            if i < earlier.len() {
                assert(published(acts)[i] == earlier[i]);
            }
        }
    }
}

/// A line that the grammar does not know ends the loop, whatever the line
/// is: the connection is told to shut down, nothing is put on the results
/// queue, and the latch is left alone.
pub proof fn lemma_unknown_line_ends_loop(line: Seq<char>)
    requires
        parse_line(line) is None,
    ensures
        disposition(line) == Disposition::Reject,
        next_phase(Phase::DrainInbound, PolledView::Item(line)) == Phase::Stopped,
        action(Phase::DrainInbound, PolledView::Item(line)) == ActionView::Teardown,
{
}

/// When every line that the server sends answers a request, the callers get
/// the server's lines one for one: the results queue holds exactly the lines
/// received, so the n-th receive of a caller yields the n-th line.
pub proof fn lemma_answers_pair_up(phase: Phase, polls: Seq<PolledView>)
    requires
        forall|i: int|
            0 <= i < received(phase, polls).len() ==> disposition(
                #[trigger] received(phase, polls)[i],
            ).forwards(),
    ensures
        published(actions(phase, polls)) == received(phase, polls),
{
    lemma_results_in_order(phase, polls);
    lemma_filter_all(received(phase, polls), is_forwarded());
}

/// Filtering by a predicate that holds of every element changes nothing.
proof fn lemma_filter_all(s: Seq<Seq<char>>, pred: spec_fn(Seq<char>) -> bool)
    requires
        forall|i: int| 0 <= i < s.len() ==> pred(#[trigger] s[i]),
    ensures
        s.filter(pred) == s,
    decreases s.len(),
{
    reveal(Seq::filter);
    if s.len() > 0 {
        lemma_filter_all(s.drop_last(), pred);
        assert(s.drop_last().push(s.last()) =~= s);
    }
}

/// The latch is opened for the server's acknowledgement and for nothing
/// else: the loop signals the start as often as it has received a `STARTED`
/// line. While none has come, no caller gets past the latch.
pub proof fn lemma_start_signalled_on_acknowledgement(phase: Phase, polls: Seq<PolledView>)
    ensures
        count(actions(phase, polls), ActionView::SignalStarted) == received(phase, polls).filter(
            is_acknowledgement(),
        ).len(),
    decreases polls.len(),
{
    reveal(Seq::filter);
    if polls.len() > 0 {
        lemma_start_signalled_on_acknowledgement(phase, polls.drop_last());
        let acts = actions(phase, polls);
        assert(acts.drop_last() =~= actions(phase, polls.drop_last()));
        let earlier = received(phase, polls.drop_last());
        let before = phase_after(phase, polls.drop_last());
        match polls.last() {
            PolledView::Item(line) => {
                if before.source() == Some(Source::Inbound) {
                    assert(earlier.push(line).drop_last() =~= earlier);
                }
            },
            _ => {},
        }
    }
}

/// The state of the handshake latch after `acts` have been carried out on a
/// latch in `state`: each signal of the start is an acknowledgement, and
/// nothing else touches the latch.
pub open spec fn latch_after(state: HandshakeState, acts: Seq<ActionView>) -> HandshakeState
    decreases acts.len(),
{
    if acts.len() == 0 {
        state
    } else if acts.last() == ActionView::SignalStarted {
        after(latch_after(state, acts.drop_last()), LatchEvent::Acknowledged)
    } else {
        latch_after(state, acts.drop_last())
    }
}

/// The latch is open after a run exactly if it was open before or the loop
/// has received the server's acknowledgement. So a caller's first request
/// waits for as long as the server withholds its `STARTED` line: until then
/// the latch is as it was, and no line for a request is handed out.
pub proof fn lemma_latch_waits_for_acknowledgement(
    state: HandshakeState,
    phase: Phase,
    polls: Seq<PolledView>,
)
    ensures
        received(phase, polls).filter(is_acknowledgement()).len() == 0 ==> latch_after(
            state,
            actions(phase, polls),
        ) == state,
        received(phase, polls).filter(is_acknowledgement()).len() > 0 ==> latch_after(
            state,
            actions(phase, polls),
        ) == HandshakeState::Started,
{
    lemma_start_signalled_on_acknowledgement(phase, polls);
    lemma_latch_follows_signals(state, actions(phase, polls));
}

/// The latch is moved by the signals of the start alone: without one it is
/// as it was, and with one it is open.
proof fn lemma_latch_follows_signals(state: HandshakeState, acts: Seq<ActionView>)
    ensures
        count(acts, ActionView::SignalStarted) == 0 ==> latch_after(state, acts) == state,
        count(acts, ActionView::SignalStarted) > 0 ==> latch_after(state, acts)
            == HandshakeState::Started,
    decreases acts.len(),
{
    if acts.len() > 0 {
        lemma_latch_follows_signals(state, acts.drop_last());
    }
}

/// A loop that has ended stays ended, and asks for nothing more.
pub proof fn lemma_stopped_is_final(polls: Seq<PolledView>)
    ensures
        phase_after(Phase::Stopped, polls) == Phase::Stopped,
        forall|i: int|
            0 <= i < polls.len() ==> #[trigger] actions(Phase::Stopped, polls)[i]
                == ActionView::Idle,
        actions(Phase::Stopped, polls).len() == polls.len(),
    decreases polls.len(),
{
    if polls.len() > 0 {
        lemma_stopped_is_final(polls.drop_last());
    }
}

/// A poll that finds its queue closed ends the loop, whichever queue it
/// was: a loop that has seen one is stopped, whatever else it has polled.
pub proof fn lemma_closed_queue_stops(phase: Phase, polls: Seq<PolledView>, i: int)
    requires
        0 <= i < polls.len(),
        polls[i] == PolledView::Disconnected,
    ensures
        phase_after(phase, polls) == Phase::Stopped,
    decreases polls.len(),
{
    if i == polls.len() - 1 {
    } else {
        lemma_closed_queue_stops(phase, polls.drop_last(), i);
    }
}

/// The connection is told to shut down exactly when the loop ends, and so
/// at most once.
pub proof fn lemma_teardown_once(phase: Phase, polls: Seq<PolledView>)
    ensures
        count(actions(phase, polls), ActionView::Teardown) == if phase != Phase::Stopped
            && phase_after(phase, polls) == Phase::Stopped {
            1nat
        } else {
            0nat
        },
    decreases polls.len(),
{
    if polls.len() > 0 {
        lemma_teardown_once(phase, polls.drop_last());
        let acts = actions(phase, polls);
        assert(acts.drop_last() =~= actions(phase, polls.drop_last()));
        if phase == Phase::Stopped {
            lemma_stopped_is_final(polls.drop_last());
        }
    }
}

/// What a poll of `source` comes to when there is no traffic: a closed
/// queue is found closed, an open one stays silent.
pub open spec fn idle_poll(source: Source, outbound_closed: bool, inbound_closed: bool)
    -> PolledView {
    let closed = match source {
        Source::Outbound => outbound_closed,
        Source::Inbound => inbound_closed,
    };
    if closed {
        PolledView::Disconnected
    } else {
        PolledView::Timeout
    }
}

/// The phase of a loop that began in `phase` and has made `n` polls without
/// traffic.
pub open spec fn phase_after_idle(
    phase: Phase,
    outbound_closed: bool,
    inbound_closed: bool,
    n: nat,
) -> Phase
    decreases n,
{
    if n == 0 {
        phase
    } else {
        let before = phase_after_idle(phase, outbound_closed, inbound_closed, (n - 1) as nat);
        match before.source() {
            Some(source) => next_phase(
                before,
                idle_poll(source, outbound_closed, inbound_closed),
            ),
            None => before,
        }
    }
}

/// Without traffic the loop notices a closed queue within two polls,
/// wherever it stood, and has ended from then on. Each poll waits no longer
/// than the poll timeout, so the loop never blocks for good.
pub proof fn lemma_idle_loop_ends(
    phase: Phase,
    outbound_closed: bool,
    inbound_closed: bool,
    n: nat,
)
    requires
        outbound_closed || inbound_closed,
        n >= 2,
    ensures
        phase_after_idle(phase, outbound_closed, inbound_closed, n) == Phase::Stopped,
    decreases n,
{
    reveal_with_fuel(phase_after_idle, 3);
    if n > 2 {
        lemma_idle_loop_ends(phase, outbound_closed, inbound_closed, (n - 1) as nat);
    }
}

} // verus!
