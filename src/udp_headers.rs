//! The header of datagram batches: the batch's index and the number of batches.
use vstd::prelude::*;
use vstd::slice::{slice_subrange, slice_to_vec};

use crate::wire::{be_bytes, be_value, lemma_be_round_trip, push_be_u32, read_be_u32};

verus! {

/// Number of header bytes in front of each batch body.
pub const HEADERS_BYTES_COUNT: usize = 4 * 2;

/// The datagram that carries batch `batch_id` of `overall_batches`.
pub open spec fn datagram_of(batch_id: u32, overall_batches: u32, body: Seq<u8>) -> Seq<u8> {
    be_bytes(batch_id) + be_bytes(overall_batches) + body
}

/// What a datagram's header and body say, if it is long enough to have a header.
pub open spec fn datagram_parts(d: Seq<u8>) -> Option<(u32, u32, Seq<u8>)> {
    if d.len() < HEADERS_BYTES_COUNT {
        None
    } else {
        Some((be_value(d) as u32, be_value(d.skip(4)) as u32, d.skip(8)))
    }
}

/// Adds and reads the header of datagram batches.
pub struct CustomProtocolProcessor {}

impl CustomProtocolProcessor {
    /// The datagram that carries `batch` as batch `batch_id` of `overall_batches`.
    pub fn add_headers(batch: &[u8], batch_id: u32, overall_batches: u32) -> (r: Vec<u8>)
        ensures
            r@ == datagram_of(batch_id, overall_batches, batch@),
    {
        let mut current_batch: Vec<u8> = Vec::new();
        push_be_u32(&mut current_batch, batch_id);
        push_be_u32(&mut current_batch, overall_batches);
        current_batch.extend_from_slice(batch);
        assert(current_batch@ =~= datagram_of(batch_id, overall_batches, batch@));
        current_batch
    }

    /// The batch index, batch count and body of a datagram; `None` when it is
    /// shorter than a header.
    pub fn parse_headers(datagram: &[u8]) -> (r: Option<(u32, u32, Vec<u8>)>)
        ensures
            match r {
                Some(p) => datagram_parts(datagram@) == Some((p.0, p.1, p.2@)),
                None => datagram_parts(datagram@) is None,
            },
    {
        if datagram.len() < HEADERS_BYTES_COUNT {
            return None;
        }
        let batch_id = read_be_u32(datagram);
        let counts = slice_subrange(datagram, 4, datagram.len());
        let overall_batches = read_be_u32(counts);
        let body = slice_to_vec(slice_subrange(datagram, HEADERS_BYTES_COUNT, datagram.len()));
        proof {
            assert(counts@ =~= datagram@.skip(4));
            assert(body@ =~= datagram@.skip(8));
        }
        Some((batch_id, overall_batches, body))
    }
}

/// Reading the header of an encoded batch gives back its index, count and body.
pub proof fn lemma_datagram_round_trip(batch_id: u32, overall_batches: u32, body: Seq<u8>)
    requires
        overall_batches >= 1,
        batch_id < overall_batches,
    ensures
        datagram_parts(datagram_of(batch_id, overall_batches, body)) == Some(
            (batch_id, overall_batches, body),
        ),
{
    let d = datagram_of(batch_id, overall_batches, body);
    lemma_be_round_trip(batch_id);
    lemma_be_round_trip(overall_batches);
    assert(d.skip(4).take(4) =~= be_bytes(overall_batches));
    assert(be_value(d.skip(4)) == be_value(be_bytes(overall_batches)));
    assert(d.skip(8) =~= body);
}

} // verus!
