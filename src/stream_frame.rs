//! Reading and writing whole frames of the stream transport.
//!
//! A frame is a four-byte big-endian length and then that many bytes of body.
//! The bytes of a connection arrive in chunks of any size; a [`FrameReader`]
//! gathers them and tells when a frame is complete, or why it never will be.
use vstd::prelude::*;
use vstd::slice::{slice_subrange, slice_to_vec};

use crate::tcp_headers::{frame_of, CustomTcpHeadersProcessor, HEADERS_LENGTH};
use crate::wire::{be_value, lemma_be_round_trip, read_be_u32};

verus! {

/// The largest body a received frame may announce.
pub const MAX_MESSAGE_SIZE: usize = 10000;

/// The received bytes announce a body larger than allowed.
pub open spec fn announces_oversize(s: Seq<u8>) -> bool {
    s.len() >= 4 && be_value(s) > MAX_MESSAGE_SIZE
}

/// The received bytes hold a whole frame of allowed size.
pub open spec fn holds_frame(s: Seq<u8>) -> bool {
    s.len() >= 4 && !announces_oversize(s) && s.len() - 4 >= be_value(s)
}

/// The body of the frame at the start of the received bytes; what follows it is dropped.
pub open spec fn frame_body(s: Seq<u8>) -> Seq<u8> {
    s.subrange(4, 4 + be_value(s))
}

/// Why a frame could not be read or written.
#[derive(Clone, Copy, Debug, PartialEq, Eq, Structural)]
pub enum FrameError {
    /// The peer closed the connection before the frame was complete.
    ShortRead,
    /// The received prefix announced a body longer than allowed.
    OversizeFrame(u32),
    /// A body to send is too long for its length prefix.
    Oversize,
}

/// The text that reports a frame error.
pub open spec fn frame_error_text(e: FrameError) -> Seq<char> {
    match e {
        FrameError::ShortRead => "Issue with the TCP read, got 0 bytes"@,
        FrameError::OversizeFrame(_) => "The maximum message size is 10000, you gave bigger message"@,
        FrameError::Oversize => "Maximum allowed length is 4294967295"@,
    }
}

impl FrameError {
    /// The text that reports this error.
    pub fn message(&self) -> (r: String)
        ensures
            r@ == frame_error_text(*self),
    {
        match self {
            FrameError::ShortRead => String::from_str("Issue with the TCP read, got 0 bytes"),
            FrameError::OversizeFrame(_) => String::from_str(
                "The maximum message size is 10000, you gave bigger message",
            ),
            FrameError::Oversize => String::from_str("Maximum allowed length is 4294967295"),
        }
    }
}

/// What a [`FrameReader`] knows after a chunk.
#[derive(Debug)]
pub enum FrameRead {
    /// More bytes are needed.
    Pending,
    /// A whole frame arrived; this is its body.
    Complete(Vec<u8>),
    /// The frame cannot be read.
    Failed(FrameError),
}

/// `r` is what the received bytes `s` tell of the frame they begin.
pub open spec fn reads_as(r: FrameRead, s: Seq<u8>) -> bool {
    match r {
        FrameRead::Pending => !announces_oversize(s) && !holds_frame(s),
        FrameRead::Complete(body) => holds_frame(s) && body@ == frame_body(s),
        FrameRead::Failed(e) => announces_oversize(s) && e == FrameError::OversizeFrame(
            be_value(s) as u32,
        ),
    }
}

/// Gathers the chunks of one frame.
pub struct FrameReader {
    buffer: Vec<u8>,
}

impl FrameReader {
    /// The bytes received so far.
    pub closed spec fn buffered(&self) -> Seq<u8> {
        self.buffer@
    }

    /// A reader that has received nothing yet.
    pub fn new() -> (r: FrameReader)
        ensures
            r.buffered() == Seq::<u8>::empty(),
    {
        FrameReader { buffer: Vec::new() }
    }

    /// Takes the next chunk read from the connection; an empty chunk means the
    /// peer closed it.
    pub fn push(&mut self, chunk: &[u8]) -> (r: FrameRead)
        ensures
            chunk@.len() == 0 ==> r == FrameRead::Failed(FrameError::ShortRead)
                && final(self).buffered() == old(self).buffered(),
            chunk@.len() > 0 ==> final(self).buffered() == old(self).buffered() + chunk@
                && reads_as(r, final(self).buffered()),
    {
        if chunk.len() == 0 {
            return FrameRead::Failed(FrameError::ShortRead);
        }
        self.buffer.extend_from_slice(chunk);
        proof {
            assert(self.buffer@ =~= old(self).buffered() + chunk@);
        }
        if self.buffer.len() < HEADERS_LENGTH {
            return FrameRead::Pending;
        }
        let length = read_be_u32(self.buffer.as_slice());
        if length as usize > MAX_MESSAGE_SIZE {
            return FrameRead::Failed(FrameError::OversizeFrame(length));
        }
        let have = self.buffer.len() - HEADERS_LENGTH;
        if have < length as usize {
            return FrameRead::Pending;
        }
        let end = HEADERS_LENGTH + length as usize;
        let body = slice_to_vec(slice_subrange(self.buffer.as_slice(), HEADERS_LENGTH, end));
        FrameRead::Complete(body)
    }
}

/// The frame that carries `body`, or `Oversize` when its length does not fit the prefix.
pub fn encode_frame(body: &[u8]) -> (r: Result<Vec<u8>, FrameError>)
    ensures
        body@.len() <= u32::MAX ==> (r matches Ok(f) && f@ == frame_of(body@)),
        body@.len() > u32::MAX ==> r == Err::<Vec<u8>, FrameError>(FrameError::Oversize),
{
    if body.len() > u32::MAX as usize {
        Err(FrameError::Oversize)
    } else {
        Ok(CustomTcpHeadersProcessor::add_headers(body))
    }
}

/// A written frame reads back as its body, whatever follows it and however
/// its bytes are cut into chunks: every beginning of the stream shorter than
/// the frame asks for more, and every longer one yields exactly the body.
pub proof fn lemma_frame_round_trip(body: Seq<u8>, rest: Seq<u8>, n: int)
    requires
        body.len() <= MAX_MESSAGE_SIZE,
        0 <= n <= frame_of(body).len() + rest.len(),
    ensures
        !announces_oversize((frame_of(body) + rest).take(n)),
        n < 4 + body.len() ==> !holds_frame((frame_of(body) + rest).take(n)),
        n >= 4 + body.len() ==> holds_frame((frame_of(body) + rest).take(n)) && frame_body(
            (frame_of(body) + rest).take(n),
        ) == body,
{
    let s = (frame_of(body) + rest).take(n);
    if n >= 4 {
        lemma_be_round_trip(body.len() as u32);
        assert(be_value(s) == be_value(frame_of(body)));
        assert(be_value(s) == body.len());
        if n >= 4 + body.len() {
            assert(frame_body(s) =~= body);
        }
    }
}

/// Once four bytes announce a body longer than allowed, the frame is refused
/// whatever else arrives, and no body is handed out.
pub proof fn lemma_oversize_refused(s: Seq<u8>, n: int)
    requires
        s.len() >= 4,
        be_value(s) > MAX_MESSAGE_SIZE,
        4 <= n <= s.len(),
    ensures
        announces_oversize(s.take(n)),
        !holds_frame(s.take(n)),
{
    assert(be_value(s.take(n)) == be_value(s));
}

} // verus!
