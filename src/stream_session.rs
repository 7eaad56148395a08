//! The decisions of one stream connection: greeting, one fetch, farewell.
//!
//! The connection's reads, writes and the fetch are done by the caller; a
//! [`StreamSession`] takes each received frame body (or the fetched content)
//! and says what to do next.
use vstd::prelude::*;
use vstd::utf8::encode_utf8;

use crate::proxy_logic::{invalid_request_text, request_url, ProxyLogic};
use crate::text::{decode_lossy, lossy_utf8, same_text};

verus! {

/// Where a session stands.
#[derive(Clone, Copy, Debug, PartialEq, Eq, Structural)]
pub enum SessionPhase {
    /// Waiting for `Connect`.
    Greeting,
    /// Waiting for `GET:<url>`.
    Request,
    /// Waiting for the fetched content.
    Fetching,
    /// Waiting for `BYE`.
    Farewell,
    /// Nothing more is read or sent.
    Closed,
}

/// What the connection does next.
#[derive(Debug)]
pub enum SessionStep {
    /// Send this body as a frame, then read the next one.
    Reply(Vec<u8>),
    /// Fetch this URL and hand the outcome to [`StreamSession::on_content`].
    Fetch(String),
    /// Send this body as a frame, then close: the exchange is over.
    Finish(Vec<u8>),
    /// Send this report as a frame, then close: the exchange failed.
    Abort(Vec<u8>),
}

/// The text of the report sent when a session fails for `reason`.
pub open spec fn failure_text(reason: Seq<char>) -> Seq<char> {
    "Error occurred: "@ + reason + "\n"@
}

/// The bytes of the report sent when a session fails for `reason`.
pub open spec fn failure_bytes(reason: Seq<char>) -> Seq<u8> {
    encode_utf8(failure_text(reason))
}

/// `r` sends `body` and goes on.
pub open spec fn replies(r: SessionStep, body: Seq<u8>) -> bool {
    r matches SessionStep::Reply(b) && b@ == body
}

/// `r` sends `body` and ends the exchange.
pub open spec fn finishes(r: SessionStep, body: Seq<u8>) -> bool {
    r matches SessionStep::Finish(b) && b@ == body
}

/// `r` reports a failure for `reason` and ends the exchange.
pub open spec fn aborts(r: SessionStep, reason: Seq<char>) -> bool {
    r matches SessionStep::Abort(b) && b@ == failure_bytes(reason)
}

/// How a session in state `before` answers the received text `message`, and
/// where it stands then (`after`).
pub open spec fn answers(
    before: StreamSession,
    after: StreamSession,
    message: Seq<char>,
    r: SessionStep,
) -> bool {
    match before.phase() {
        SessionPhase::Greeting => if message == "Connect"@ {
            replies(r, encode_utf8("Accept"@)) && after.phase() == SessionPhase::Request
        } else {
            aborts(r, "Expected connect message"@) && after.phase() == SessionPhase::Closed
        },
        SessionPhase::Request => match request_url(message) {
            Some(url) => (r matches SessionStep::Fetch(u) && u@ == url) && after.phase()
                == SessionPhase::Fetching,
            None => aborts(r, invalid_request_text()) && after.phase() == SessionPhase::Closed,
        },
        SessionPhase::Farewell => if message == "BYE"@ {
            finishes(r, encode_utf8("BYE"@)) && after.phase() == SessionPhase::Closed
        } else {
            aborts(r, "Expected bye message"@) && after.phase() == SessionPhase::Closed
        },
        _ => false,
    }
}

/// The report sent when a session fails for `reason`.
pub fn failure_report(reason: &str) -> (r: Vec<u8>)
    ensures
        r@ == failure_bytes(reason@),
{
    let mut text = String::from_str("Error occurred: ");
    text.append(reason);
    text.append("\n");
    text.as_str().as_bytes_vec()
}

/// One stream connection's exchange.
pub struct StreamSession {
    phase: SessionPhase,
}

impl StreamSession {
    /// Where the session stands.
    pub closed spec fn phase(&self) -> SessionPhase {
        self.phase
    }

    /// A session waiting for its greeting.
    pub fn new() -> (r: StreamSession)
        ensures
            r.phase() == SessionPhase::Greeting,
    {
        StreamSession { phase: SessionPhase::Greeting }
    }

    /// Where the session stands.
    pub fn current_phase(&self) -> (r: SessionPhase)
        ensures
            r == self.phase(),
    {
        self.phase
    }

    /// Takes the body of the next frame received; its bytes are read as text.
    pub fn on_frame(&mut self, frame: &[u8]) -> (r: SessionStep)
        requires
            old(self).phase() == SessionPhase::Greeting || old(self).phase() == SessionPhase::Request
                || old(self).phase() == SessionPhase::Farewell,
        ensures
            answers(*old(self), *final(self), lossy_utf8(frame@), r),
    {
        self.on_message(decode_lossy(frame).as_str())
    }

    /// Takes the text of the next frame received.
    pub fn on_message(&mut self, message: &str) -> (r: SessionStep)
        requires
            old(self).phase() == SessionPhase::Greeting || old(self).phase() == SessionPhase::Request
                || old(self).phase() == SessionPhase::Farewell,
        ensures
            answers(*old(self), *final(self), message@, r),
    {
        match self.phase {
            SessionPhase::Greeting => {
                if same_text(message, "Connect") {
                    self.phase = SessionPhase::Request;
                    SessionStep::Reply("Accept".as_bytes_vec())
                } else {
                    self.phase = SessionPhase::Closed;
                    SessionStep::Abort(failure_report("Expected connect message"))
                }
            },
            SessionPhase::Request => {
                match ProxyLogic::process_message(message) {
                    Ok(url) => {
                        self.phase = SessionPhase::Fetching;
                        SessionStep::Fetch(url)
                    },
                    Err(e) => {
                        self.phase = SessionPhase::Closed;
                        SessionStep::Abort(failure_report(e.as_str()))
                    },
                }
            },
            _ => {
                self.phase = SessionPhase::Closed;
                if same_text(message, "BYE") {
                    SessionStep::Finish("BYE".as_bytes_vec())
                } else {
                    SessionStep::Abort(failure_report("Expected bye message"))
                }
            },
        }
    }

    /// Takes the outcome of the fetch: the content to send, or why there is none.
    pub fn on_content(&mut self, content: Result<Vec<u8>, String>) -> (r: SessionStep)
        requires
            old(self).phase() == SessionPhase::Fetching,
        ensures
            match content {
                Ok(body) => replies(r, body@) && final(self).phase() == SessionPhase::Farewell,
                Err(e) => aborts(r, e@) && final(self).phase() == SessionPhase::Closed,
            },
    {
        match content {
            Ok(body) => {
                self.phase = SessionPhase::Farewell;
                SessionStep::Reply(body)
            },
            Err(e) => {
                self.phase = SessionPhase::Closed;
                SessionStep::Abort(failure_report(e.as_str()))
            },
        }
    }
}

} // verus!
