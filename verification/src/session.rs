//! The caller's side of a session: when a request may go out, what a caller
//! gets back, and how the session ends.
//!
//! The results queue is shared by all callers of a session and hands each
//! result to whoever receives next. A session therefore carries one request
//! at a time: a caller submits the next request only when the one before it
//! has been answered.

use vstd::prelude::*;
use vstd::string::*;
use crate::client::{
    frame, line_end, parse_line, ClientError, Message, RequestMessage, ResponseMessage,
};
use crate::latch::{HandshakeLatch, HandshakeState};

verus! {

/// How long a disconnecting caller leaves the session to finish what is
/// under way before it waits for the loop to end, in milliseconds.
pub const DISCONNECT_GRACE_MILLIS: u64 = 1000;

/// The line to submit for `message`, once the handshake is through: `None`
/// while the latch is closed, and the caller then waits on the latch and
/// asks again. No request but the start request leaves a session before the
/// server has acknowledged the start.
pub fn send_line<M: Message>(latch: &HandshakeLatch, message: &M) -> (line: Option<String>)
    ensures
        match line {
            Some(l) => latch@ == HandshakeState::Started && l@ == message.wire() + line_end(),
            None => latch@ != HandshakeState::Started,
        },
{
    if latch.is_started() {
        Some(frame(message))
    } else {
        None
    }
}

/// What submitting a line comes to, where `sent` says whether the
/// callers' queue took it.
pub fn submit_outcome(sent: bool) -> (r: Result<(), ClientError>)
    ensures
        sent ==> r is Ok,
        !sent ==> r == Err::<(), ClientError>(ClientError::ProcessingError),
{
    if sent {
        Ok(())
    } else {
        Err(ClientError::ProcessingError)
    }
}

/// What a caller gets for `received`, the next item of the results queue or
/// `None` when the queue is closed: the response that the line stands for;
/// `ProtocolParseError` for a line that is no response, which the session's
/// loop never puts on the queue; `ProcessingError` when the session's loop
/// has gone and no result can come.
pub fn receive_outcome(received: Option<String>) -> (r: Result<ResponseMessage, ClientError>)
    ensures
        match received {
            Some(line) => match parse_line(line@) {
                Some(v) => r matches Ok(m) && m@ == v,
                None => r matches Err(e) && e == ClientError::ProtocolParseError,
            },
            None => r matches Err(e) && e == ClientError::ProcessingError,
        },
{
    match received {
        Some(line) => ResponseMessage::parse(line),
        None => Err(ClientError::ProcessingError),
    }
}

/// What a caller holds of a session.
#[derive(Debug)]
pub struct Session {
    disconnected: bool,
}

impl View for Session {
    /// Whether the session has been disconnected.
    type V = bool;

    closed spec fn view(&self) -> bool {
        self.disconnected
    }
}

impl Session {
    /// The line that ends a session.
    pub open spec fn quit_line() -> Seq<char> {
        RequestMessage::Quit.wire() + line_end()
    }

    /// Whether a session, disconnected before or not as `disconnected`
    /// says, can be disconnected now.
    pub open spec fn accepts_disconnect(disconnected: bool) -> bool {
        !disconnected
    }

    /// How many of `attempts` calls of `disconnect` in a row are accepted,
    /// on a session that was disconnected before or not as `disconnected`
    /// says. Every call leaves the session disconnected.
    pub open spec fn accepted_disconnects(disconnected: bool, attempts: nat) -> nat
        decreases attempts,
    {
        if attempts == 0 {
            0
        } else if Session::accepts_disconnect(disconnected) {
            1 + Session::accepted_disconnects(true, (attempts - 1) as nat)
        } else {
            Session::accepted_disconnects(true, (attempts - 1) as nat)
        }
    }

    /// A session that has just been opened.
    pub fn new() -> (session: Session)
        ensures
            !session@,
    {
        Session { disconnected: false }
    }

    /// Whether the session has been disconnected.
    pub fn is_disconnected(&self) -> (disconnected: bool)
        ensures
            disconnected == self@,
    {
        self.disconnected
    }

    /// Ends the session. The first call returns the line to submit; the
    /// caller then leaves the grace period and waits for the loop to end. A
    /// later call finds the session ended and is refused with
    /// `ProcessingError`: nothing is submitted again and nothing is waited
    /// for twice.
    pub fn disconnect(&mut self) -> (r: Result<String, ClientError>)
        ensures
            final(self)@,
            match r {
                Ok(line) => Session::accepts_disconnect(old(self)@) && line@
                    == Session::quit_line(),
                Err(e) => !Session::accepts_disconnect(old(self)@) && e
                    == ClientError::ProcessingError,
            },
    {
        if self.disconnected {
            Err(ClientError::ProcessingError)
        } else {
            self.disconnected = true;
            Ok(frame(&RequestMessage::Quit))
        }
    }
}

/// A session is disconnected at most once: of any number of calls only the
/// first can be accepted, and it is accepted exactly when the session had
/// not been disconnected before.
pub proof fn lemma_disconnect_at_most_once(disconnected: bool, attempts: nat)
    ensures
        Session::accepted_disconnects(disconnected, attempts) <= 1,
        Session::accepted_disconnects(disconnected, attempts) == 1 <==> (!disconnected
            && attempts >= 1),
    decreases attempts,
{
    if attempts > 0 {
        lemma_disconnect_at_most_once(true, (attempts - 1) as nat);
    }
}

} // verus!
