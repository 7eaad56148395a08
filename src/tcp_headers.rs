//! The four-byte length prefix of the stream transport.
use vstd::prelude::*;
use vstd::slice::{slice_subrange, slice_to_vec};

use crate::wire::{be_bytes, be_value, push_be_u32, read_be_u32};

verus! {

/// Number of bytes of the length prefix.
pub const HEADERS_LENGTH: usize = 4;

/// A frame of the stream transport: the body's length, big-endian, then the body.
pub open spec fn frame_of(body: Seq<u8>) -> Seq<u8>
    recommends
        body.len() <= u32::MAX,
{
    be_bytes(body.len() as u32) + body
}

/// Adds and removes the length prefix of stream frames.
pub struct CustomTcpHeadersProcessor {}

impl CustomTcpHeadersProcessor {
    /// Splits a message into the length its prefix announces and the bytes after it.
    pub fn parse_headers(message: Vec<u8>) -> (r: (u32, Vec<u8>))
        requires
            message@.len() >= HEADERS_LENGTH,
        ensures
            r.0 == be_value(message@),
            r.1@ == message@.skip(HEADERS_LENGTH as int),
    {
        let length = read_be_u32(message.as_slice());
        let rest = slice_to_vec(slice_subrange(message.as_slice(), HEADERS_LENGTH, message.len()));
        (length, rest)
    }

    /// The frame that carries `message`.
    pub fn add_headers(message: &[u8]) -> (r: Vec<u8>)
        requires
            message@.len() <= u32::MAX,
        ensures
            r@ == frame_of(message@),
    {
        let length = message.len() as u32;
        let mut new_message: Vec<u8> = Vec::new();
        push_be_u32(&mut new_message, length);
        new_message.extend_from_slice(message);
        assert(new_message@ =~= frame_of(message@));
        new_message
    }
}

} // verus!
