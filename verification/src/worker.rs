//! The decisions of the connection worker: what its reader and its writer
//! do with what they get, whether a line can still be queued for writing,
//! and the order in which the worker is taken down.

use vstd::prelude::*;
use vstd::string::*;
use crate::text::trimmed;

verus! {

/// What can go wrong in the connection worker.
#[derive(Clone, Copy, Debug, PartialEq, Eq, Structural)]
pub enum WorkerError {
    /// The line could not be handed to the writer.
    ProcessingError,
    /// The worker no longer takes lines: it is being taken down, or is down.
    ChannelClosedError,
    /// The reader or the writer did not end cleanly.
    ThreadError,
}

impl WorkerError {
    pub open spec fn text(self) -> Seq<char> {
        match self {
            WorkerError::ProcessingError => "ProcessingError"@,
            WorkerError::ChannelClosedError => "ChannelClosedError"@,
            WorkerError::ThreadError => "ThreadError"@,
        }
    }

    /// The name of the error.
    pub fn to_string(&self) -> (s: String)
        ensures
            s@ == self.text(),
    {
        match self {
            WorkerError::ProcessingError => String::from_str("ProcessingError"),
            WorkerError::ChannelClosedError => String::from_str("ChannelClosedError"),
            WorkerError::ThreadError => String::from_str("ThreadError"),
        }
    }
}

/// What one blocking read of a line from the socket came to, as a
/// mathematical value.
pub enum ReadEventView {
    Line(Seq<char>),
    Failed,
}

/// What one blocking read of a line from the socket came to.
#[derive(Debug)]
pub enum ReadEvent {
    /// The read returned these characters, line end included. None at all
    /// means that the peer has closed the connection.
    Line(String),
    /// The read failed.
    Failed,
}

impl View for ReadEvent {
    type V = ReadEventView;

    open spec fn view(&self) -> ReadEventView {
        match self {
            ReadEvent::Line(text) => ReadEventView::Line(text@),
            ReadEvent::Failed => ReadEventView::Failed,
        }
    }
}

/// What the reader does after a read, as a mathematical value.
pub enum ReaderActionView {
    Forward(Seq<char>),
    Stop,
}

/// What the reader does after a read.
#[derive(Debug)]
pub enum ReaderAction {
    /// Put this line on the inbound queue and read on.
    Forward(String),
    /// End the reader.
    Stop,
}

impl View for ReaderAction {
    type V = ReaderActionView;

    open spec fn view(&self) -> ReaderActionView {
        match self {
            ReaderAction::Forward(line) => ReaderActionView::Forward(line@),
            ReaderAction::Stop => ReaderActionView::Stop,
        }
    }
}

/// What the reader does after a read that came to `event`: a line goes on
/// without the white space around it, and so without its line end; the end
/// of the stream and a failure end the reader.
pub open spec fn reader_action(event: ReadEventView) -> ReaderActionView {
    match event {
        ReadEventView::Line(text) => if text.len() == 0 {
            ReaderActionView::Stop
        } else {
            ReaderActionView::Forward(trimmed(text))
        },
        ReadEventView::Failed => ReaderActionView::Stop,
    }
}

/// Decides what the reader does after a read.
pub fn reader_step(event: ReadEvent) -> (act: ReaderAction)
    ensures
        act@ == reader_action(event@),
{
    match event {
        ReadEvent::Line(text) => {
            if text.as_str().is_empty() {
                ReaderAction::Stop
            } else {
                ReaderAction::Forward(String::from_str(text.as_str().trim()))
            }
        },
        ReadEvent::Failed => ReaderAction::Stop,
    }
}

/// What the writer does with what it took from the outbound queue, as a
/// mathematical value.
pub enum WriterActionView {
    Write(Seq<u8>),
    Stop,
}

/// What the writer does with what it took from the outbound queue.
#[derive(Debug)]
pub enum WriterAction {
    /// Write these bytes to the socket and flush. Whether that succeeds or
    /// not, the writer goes on with the next line.
    Write(Vec<u8>),
    /// End the writer.
    Stop,
}

impl View for WriterAction {
    type V = WriterActionView;

    open spec fn view(&self) -> WriterActionView {
        match self {
            WriterAction::Write(bytes) => WriterActionView::Write(bytes@),
            WriterAction::Stop => WriterActionView::Stop,
        }
    }
}

/// What the writer does with `taken`, the next line of the outbound queue or
/// `None` when the queue is closed: a line is written as the bytes of its
/// characters, and the closed queue ends the writer.
pub open spec fn writer_action(taken: Option<Seq<char>>) -> WriterActionView {
    match taken {
        Some(line) => WriterActionView::Write(vstd::utf8::encode_utf8(line)),
        None => WriterActionView::Stop,
    }
}

/// Decides what the writer does with what it took from the outbound queue.
pub fn writer_step(taken: Option<String>) -> (act: WriterAction)
    ensures
        act@ == writer_action(
            match taken {
                Some(line) => Some(line@),
                None => None,
            },
        ),
{
    match taken {
        Some(line) => WriterAction::Write(line.as_str().as_bytes_vec()),
        None => WriterAction::Stop,
    }
}

/// The steps that take a worker down.
#[derive(Clone, Copy, Debug, PartialEq, Eq, Structural)]
pub enum TeardownStep {
    /// Close the outbound queue, which ends the writer.
    CloseOutbound,
    /// Wait for the writer to end.
    JoinWriter,
    /// Shut the socket down in both directions, which ends a reader that is
    /// blocked in a read.
    ShutdownSocket,
    /// Wait for the reader to end.
    JoinReader,
}

/// How far a worker has been taken down.
#[derive(Clone, Copy, Debug, PartialEq, Eq, Structural)]
pub enum Stage {
    /// Reader and writer are at work; the worker takes lines.
    Running,
    OutboundClosed,
    WriterJoined,
    SocketShut,
    /// All four steps are done.
    Down,
}

impl Stage {
    /// The step that is due at this stage.
    pub open spec fn due(self) -> Option<TeardownStep> {
        match self {
            Stage::Running => Some(TeardownStep::CloseOutbound),
            Stage::OutboundClosed => Some(TeardownStep::JoinWriter),
            Stage::WriterJoined => Some(TeardownStep::ShutdownSocket),
            Stage::SocketShut => Some(TeardownStep::JoinReader),
            Stage::Down => None,
        }
    }

    /// The stage that is reached when the due step is done.
    pub open spec fn following(self) -> Stage {
        match self {
            Stage::Running => Stage::OutboundClosed,
            Stage::OutboundClosed => Stage::WriterJoined,
            Stage::WriterJoined => Stage::SocketShut,
            Stage::SocketShut => Stage::Down,
            Stage::Down => Stage::Down,
        }
    }

    /// Whether the step that is due at this stage waits for a thread.
    pub open spec fn joins(self) -> bool {
        self == Stage::OutboundClosed || self == Stage::SocketShut
    }
}

/// The state of a worker, as a mathematical value.
pub struct WorkerView {
    pub stage: Stage,
    /// Whether a thread that was waited for had not ended cleanly.
    pub join_failed: bool,
}

impl WorkerView {
    /// The state after the due step has been carried out and has gone well
    /// or not, as `ok` says. Only a failed wait for a thread is remembered;
    /// the next step is due either way.
    pub open spec fn completed(self, ok: bool) -> WorkerView {
        WorkerView {
            stage: self.stage.following(),
            join_failed: self.join_failed || (self.stage.joins() && !ok),
        }
    }

    /// The state after as many due steps as `oks` is long have been
    /// carried out, with the results that `oks` gives in order.
    pub open spec fn completed_all(self, oks: Seq<bool>) -> WorkerView
        decreases oks.len(),
    {
        if oks.len() == 0 {
            self
        } else {
            self.completed_all(oks.drop_last()).completed(oks.last())
        }
    }

    /// What taking the worker down has come to.
    pub open spec fn outcome(self) -> Result<(), WorkerError> {
        if self.join_failed {
            Err(WorkerError::ThreadError)
        } else {
            Ok(())
        }
    }

    /// What queueing a line for writing comes to, where `sent` says whether
    /// the outbound queue took the line.
    pub open spec fn write_outcome(self, sent: bool) -> Result<(), WorkerError> {
        if self.stage != Stage::Running {
            Err(WorkerError::ChannelClosedError)
        } else if sent {
            Ok(())
        } else {
            Err(WorkerError::ProcessingError)
        }
    }
}

/// The state of one worker.
#[derive(Debug)]
pub struct WorkerState {
    stage: Stage,
    join_failed: bool,
}

impl View for WorkerState {
    type V = WorkerView;

    closed spec fn view(&self) -> WorkerView {
        WorkerView { stage: self.stage, join_failed: self.join_failed }
    }
}

impl WorkerState {
    /// The state of a worker that has just connected.
    pub fn new() -> (state: WorkerState)
        ensures
            state@ == (WorkerView { stage: Stage::Running, join_failed: false }),
    {
        WorkerState { stage: Stage::Running, join_failed: false }
    }

    /// How far the worker has been taken down.
    pub fn stage(&self) -> (stage: Stage)
        ensures
            stage == self@.stage,
    {
        self.stage
    }

    /// Whether the worker still takes lines for writing.
    pub fn accepts_writes(&self) -> (open: bool)
        ensures
            open == (self@.stage == Stage::Running),
    {
        match self.stage {
            Stage::Running => true,
            _ => false,
        }
    }

    /// What queueing a line for writing comes to. The caller offers the line
    /// to the outbound queue only while the worker takes lines, and says in
    /// `sent` whether the queue took it.
    pub fn write_outcome(&self, sent: bool) -> (r: Result<(), WorkerError>)
        ensures
            r == self@.write_outcome(sent),
    {
        if !self.accepts_writes() {
            Err(WorkerError::ChannelClosedError)
        } else if sent {
            Ok(())
        } else {
            Err(WorkerError::ProcessingError)
        }
    }

    /// The step to carry out next, or `None` when the worker is down.
    pub fn next_step(&self) -> (step: Option<TeardownStep>)
        ensures
            step == self@.stage.due(),
    {
        match self.stage {
            Stage::Running => Some(TeardownStep::CloseOutbound),
            Stage::OutboundClosed => Some(TeardownStep::JoinWriter),
            Stage::WriterJoined => Some(TeardownStep::ShutdownSocket),
            Stage::SocketShut => Some(TeardownStep::JoinReader),
            Stage::Down => None,
        }
    }

    /// Records that the due step has been carried out, and whether it went
    /// well.
    pub fn complete(&mut self, ok: bool)
        ensures
            final(self)@ == old(self)@.completed(ok),
    {
        match self.stage {
            Stage::Running => {
                self.stage = Stage::OutboundClosed;
            },
            Stage::OutboundClosed => {
                self.stage = Stage::WriterJoined;
                if !ok {
                    self.join_failed = true;
                }
            },
            Stage::WriterJoined => {
                self.stage = Stage::SocketShut;
            },
            Stage::SocketShut => {
                self.stage = Stage::Down;
                if !ok {
                    self.join_failed = true;
                }
            },
            Stage::Down => {},
        }
    }

    /// What taking the worker down has come to so far: `ThreadError` when a
    /// thread that was waited for had not ended cleanly.
    pub fn outcome(&self) -> (r: Result<(), WorkerError>)
        ensures
            r == self@.outcome(),
    {
        if self.join_failed {
            Err(WorkerError::ThreadError)
        } else {
            Ok(())
        }
    }
}

/// The state of a worker that has just connected.
pub open spec fn connected() -> WorkerView {
    WorkerView { stage: Stage::Running, join_failed: false }
}

/// Taking a worker down always runs through the same four steps in the same
/// order, whatever each of them comes to: the outbound queue is closed
/// before the writer is waited for, the socket is shut down before the
/// reader is waited for, and a writer that did not end cleanly does not keep
/// the socket from being shut down nor the reader from being waited for.
pub proof fn lemma_teardown_order(oks: Seq<bool>)
    requires
        oks.len() == 4,
    ensures
        connected().stage.due() == Some(TeardownStep::CloseOutbound),
        connected().completed_all(oks.take(1)).stage.due() == Some(TeardownStep::JoinWriter),
        connected().completed_all(oks.take(2)).stage.due() == Some(TeardownStep::ShutdownSocket),
        connected().completed_all(oks.take(3)).stage.due() == Some(TeardownStep::JoinReader),
        connected().completed_all(oks).stage == Stage::Down,
{
    lemma_stage_after(oks.take(1));
    lemma_stage_after(oks.take(2));
    lemma_stage_after(oks.take(3));
    lemma_stage_after(oks);
}

/// The stage of a worker depends only on how many steps have been carried
/// out, not on what they came to.
proof fn lemma_stage_after(oks: Seq<bool>)
    ensures
        connected().completed_all(oks).stage == if oks.len() == 0 {
            Stage::Running
        } else if oks.len() == 1 {
            Stage::OutboundClosed
        } else if oks.len() == 2 {
            Stage::WriterJoined
        } else if oks.len() == 3 {
            Stage::SocketShut
        } else {
            Stage::Down
        },
    decreases oks.len(),
{
    if oks.len() > 0 {
        lemma_stage_after(oks.drop_last());
    }
}

/// A worker that has been taken down reports `ThreadError` exactly when the
/// writer or the reader had not ended cleanly.
pub proof fn lemma_teardown_outcome(oks: Seq<bool>)
    requires
        oks.len() == 4,
    ensures
        connected().completed_all(oks).outcome() is Err <==> (!oks[1] || !oks[3]),
        connected().completed_all(oks).outcome() is Err ==> connected().completed_all(
            oks,
        ).outcome() == Err::<(), WorkerError>(WorkerError::ThreadError),
{
    let s0 = connected();
    let s1 = s0.completed_all(oks.take(1));
    let s2 = s0.completed_all(oks.take(2));
    let s3 = s0.completed_all(oks.take(3));
    let s4 = s0.completed_all(oks);
    lemma_stage_after(oks.take(1));
    lemma_stage_after(oks.take(2));
    lemma_stage_after(oks.take(3));
    assert(oks.take(1).drop_last() =~= oks.take(0));
    assert(oks.take(2).drop_last() =~= oks.take(1));
    assert(oks.take(3).drop_last() =~= oks.take(2));
    assert(oks.drop_last() =~= oks.take(3));
    assert(s0.completed_all(oks.take(0)) == s0);
    assert(s1 == s0.completed(oks[0]));
    assert(s2 == s1.completed(oks[1]));
    assert(s3 == s2.completed(oks[2]));
    assert(s4 == s3.completed(oks[3]));
}

/// How many steps are left at a stage until the worker is down.
pub open spec fn steps_left(stage: Stage) -> nat {
    match stage {
        Stage::Running => 4,
        Stage::OutboundClosed => 3,
        Stage::WriterJoined => 2,
        Stage::SocketShut => 1,
        Stage::Down => 0,
    }
}

/// Wherever a worker stands, the steps come in one order: closing the
/// outbound queue is followed by waiting for the writer, that by shutting
/// the socket down, that by waiting for the reader, and that by nothing.
/// What a step comes to has no part in it, so a thread that did not end
/// cleanly holds nothing up.
pub proof fn lemma_steps_follow(state: WorkerView, ok: bool)
    ensures
        state.completed(ok).stage.due() == match state.stage.due() {
            Some(TeardownStep::CloseOutbound) => Some(TeardownStep::JoinWriter),
            Some(TeardownStep::JoinWriter) => Some(TeardownStep::ShutdownSocket),
            Some(TeardownStep::ShutdownSocket) => Some(TeardownStep::JoinReader),
            Some(TeardownStep::JoinReader) => None,
            None => None,
        },
        state.stage.due() is Some ==> steps_left(state.completed(ok).stage) + 1 == steps_left(
            state.stage,
        ),
{
}

/// Taking a worker down comes to an end, from whatever stage and whatever
/// the steps come to: every step leaves one step fewer, so after as many
/// steps as were left, and after four at the most, the worker is down.
pub proof fn lemma_teardown_ends(state: WorkerView, oks: Seq<bool>)
    ensures
        steps_left(state.completed_all(oks).stage) == if oks.len() >= steps_left(state.stage) {
            0nat
        } else {
            (steps_left(state.stage) - oks.len()) as nat
        },
        oks.len() >= 4 ==> state.completed_all(oks).stage == Stage::Down,
    decreases oks.len(),
{
    if oks.len() > 0 {
        lemma_teardown_ends(state, oks.drop_last());
        lemma_steps_follow(state.completed_all(oks.drop_last()), oks.last());
    }
}

/// A worker reports `ThreadError` exactly if a thread that was waited for
/// had not ended cleanly, now or before; what closing the queue and
/// shutting the socket down come to is not reported.
pub proof fn lemma_failed_join_is_reported(state: WorkerView, ok: bool)
    ensures
        state.completed(ok).outcome() is Err <==> (state.outcome() is Err || (
        state.stage.joins() && !ok)),
{
}

/// A worker that is down stays down: no step is due, carrying one out
/// changes nothing, and no line is taken for writing.
pub proof fn lemma_down_is_final(state: WorkerView, ok: bool, sent: bool)
    requires
        state.stage == Stage::Down,
    ensures
        state.stage.due() is None,
        state.completed(ok) == state,
        state.write_outcome(sent) == Err::<(), WorkerError>(WorkerError::ChannelClosedError),
{
}

/// From the moment the outbound queue is closed, no line is taken for
/// writing any more.
pub proof fn lemma_no_write_after_close(state: WorkerView, sent: bool)
    requires
        state.stage != Stage::Running,
    ensures
        state.write_outcome(sent) == Err::<(), WorkerError>(WorkerError::ChannelClosedError),
{
}

} // verus!
