//! The decisions of a datagram worker: what to send back for one request.
//!
//! A worker reads the request text, consults and fills the retransmit cache,
//! and hands back the datagrams to queue for the peer, in order. Fetching a
//! URL is left to the caller, who returns the outcome to [`handle_content`].
use vstd::prelude::*;
use vstd::slice::slice_to_vec;
use vstd::utf8::encode_utf8;

use crate::batch_creator::{batch_count, split_batches, views, MessageBatchCreator};
use crate::batch_repeat::{get_batch_id_for_repeat, is_batch_repeat_request, repeat_id, repeat_prefix};
use crate::batches_cache::{BatchKey, BatchesCache, CachedFrame, Peer, BATCH_TTL_MS};
use crate::proxy_logic::{invalid_request_text, request_url, ProxyLogic};
use crate::text::{decimal, has_prefix, push_decimal, same_text, trim_text, trimmed};
use crate::udp_headers::{datagram_of, CustomProtocolProcessor, HEADERS_BYTES_COUNT};

verus! {

/// The size of a response datagram, header included.
pub const BUFFER_SIZE: usize = 500;

/// The size of a response batch's body.
pub open spec fn batch_body_size() -> nat {
    (BUFFER_SIZE - HEADERS_BYTES_COUNT) as nat
}

/// The datagrams that carry `message`: its batches, each behind its index and the batch count.
pub open spec fn batch_frames(message: Seq<u8>) -> Seq<Seq<u8>> {
    let n = batch_count(message.len(), batch_body_size());
    Seq::new(
        n,
        |i: int| datagram_of(i as u32, n as u32, split_batches(message, batch_body_size())[i]),
    )
}

/// Whether `message` can be numbered in batches.
pub open spec fn fits_batches(message: Seq<u8>) -> bool {
    batch_count(message.len(), batch_body_size()) <= u32::MAX
}

/// The cache `m` after storing `frames` as batches 0, 1, ... sent to `peer`, expiring at `expires`.
pub open spec fn with_batches(
    m: Map<BatchKey, CachedFrame>,
    peer: Peer,
    frames: Seq<Seq<u8>>,
    expires: u64,
) -> Map<BatchKey, CachedFrame> {
    Map::new(
        |k: BatchKey| m.contains_key(k) || (k.0 == peer && k.1 < frames.len()),
        |k: BatchKey|
            if k.0 == peer && k.1 < frames.len() {
                (expires, frames[k.1 as int])
            } else {
                m[k]
            },
    )
}

/// The text sent when batch `id` is not in the cache.
pub open spec fn missing_batch_text(id: u32) -> Seq<char> {
    "Couldn't get the requested batch with ID "@ + decimal(id as nat)
}

/// What is sent back for a retransmit request for batch `id` from `peer`.
pub open spec fn repeat_reply(m: Map<BatchKey, CachedFrame>, peer: Peer, id: u32) -> Seq<u8> {
    if m.contains_key((peer, id)) {
        m[(peer, id)].1
    } else {
        encode_utf8(missing_batch_text(id))
    }
}

/// The report sent to the client when its request failed for `reason`.
pub open spec fn request_failure_text(reason: Seq<char>) -> Seq<char> {
    "Failed processing your request: "@ + reason
}

/// Why a request that is not `GET:<url>` failed.
pub open spec fn invalid_url_text() -> Seq<char> {
    "Invalid url, can't parse it: "@ + invalid_request_text()
}

/// Why a fetch failed, from the fetcher's own reason.
pub open spec fn fetch_failure_text(reason: Seq<char>) -> Seq<char> {
    "Issue while loading the data from target server: "@ + reason
}

/// Why a response could not be sent back.
pub open spec fn send_failure_text() -> Seq<char> {
    "Failure when sending the message back to the client: "@
        + "Very long message, can't break into batches"@
}

/// What a worker does with a request.
#[derive(Debug)]
pub enum WorkerStep {
    /// Queue these datagrams for the peer, in order.
    Reply(Vec<Vec<u8>>),
    /// Fetch this URL and hand the outcome to [`handle_content`].
    Fetch(String),
    /// The request failed for this reason: send the report with [`report_failure`].
    Fail(String),
    /// Send nothing.
    Ignore,
}

/// `r` queues exactly `items`, in order.
pub open spec fn replies_with(r: WorkerStep, items: Seq<Seq<u8>>) -> bool {
    r matches WorkerStep::Reply(v) && views(v@) == items
}

/// `r` sends `message` in batches to `peer` and the cache went from `before`
/// to `after` by storing them; when `message` is too long for that, nothing
/// is sent or stored.
pub open spec fn sends_batches(
    r: WorkerStep,
    before: Map<BatchKey, CachedFrame>,
    after: Map<BatchKey, CachedFrame>,
    peer: Peer,
    message: Seq<u8>,
    now: u64,
) -> bool {
    if fits_batches(message) {
        replies_with(r, batch_frames(message)) && after == with_batches(
            before,
            peer,
            batch_frames(message),
            (now + BATCH_TTL_MS) as u64,
        )
    } else {
        r is Ignore && after == before
    }
}

/// Cuts `message` into batches for `peer`, stores each encoded batch in the
/// cache at time `now`, and returns them in order; an error, with nothing
/// stored, when the batches cannot be numbered.
pub fn send_message_with_batches(
    message: Vec<u8>,
    peer: Peer,
    cache: &mut BatchesCache,
    now: u64,
) -> (r: Result<Vec<Vec<u8>>, String>)
    requires
        now + BATCH_TTL_MS <= u64::MAX,
    ensures
        match r {
            Ok(frames) => fits_batches(message@) && views(frames@) == batch_frames(message@)
                && final(cache)@ == with_batches(
                old(cache)@,
                peer,
                batch_frames(message@),
                (now + BATCH_TTL_MS) as u64,
            ),
            Err(e) => !fits_batches(message@) && e@ == "Very long message, can't break into batches"@
                && final(cache)@ == old(cache)@,
        },
{
    let ghost msg = message@;
    let creator = MessageBatchCreator::new(BUFFER_SIZE - HEADERS_BYTES_COUNT);
    let batches = match creator.break_message(message) {
        Ok(b) => b,
        Err(e) => {
            return Err(e);
        },
    };
    let ghost all = batch_frames(msg);
    assert(creator.size() == batch_body_size());
    assert(views(batches@).len() == batches@.len());
    let ghost expires = (now + BATCH_TTL_MS) as u64;
    let count = batches.len();
    let mut frames: Vec<Vec<u8>> = Vec::new();
    let mut index: usize = 0;
    while index < count
        invariant
            count == batches@.len(),
            count == all.len(),
            count <= u32::MAX,
            views(batches@) == split_batches(msg, batch_body_size()),
            all == batch_frames(msg),
            now + BATCH_TTL_MS <= u64::MAX,
            expires == now + BATCH_TTL_MS,
            index <= count,
            views(frames@) == all.take(index as int),
            cache@ == with_batches(old(cache)@, peer, all.take(index as int), expires),
        decreases count - index,
    {
        let frame = CustomProtocolProcessor::add_headers(
            batches[index].as_slice(),
            index as u32,
            count as u32,
        );
        proof {
            assert(batches@[index as int]@ == split_batches(msg, batch_body_size())[index as int]);
            assert(frame@ == all[index as int]);
        }
        let ghost before = cache@;
        cache.add_batch(peer, index as u32, slice_to_vec(frame.as_slice()), now);
        frames.push(frame);
        proof {
            assert(views(frames@) =~= all.take(index + 1));
            assert(cache@ =~= with_batches(old(cache)@, peer, all.take(index + 1), expires));
        }
        index = index + 1;
    }
    assert(all.take(count as int) =~= all);
    Ok(frames)
}

/// Sends the report of a request that failed for `reason` to `peer` in
/// batches, stored in the cache; nothing when it cannot be numbered.
pub fn report_failure(reason: &str, peer: Peer, cache: &mut BatchesCache, now: u64) -> (r: WorkerStep)
    requires
        now + BATCH_TTL_MS <= u64::MAX,
    ensures
        sends_batches(r, old(cache)@, final(cache)@, peer, encode_utf8(request_failure_text(reason@)), now),
{
    let mut text = String::from_str("Failed processing your request: ");
    text.append(reason);
    match send_message_with_batches(text.as_str().as_bytes_vec(), peer, cache, now) {
        Ok(frames) => WorkerStep::Reply(frames),
        Err(_) => WorkerStep::Ignore,
    }
}

/// A single datagram to queue, made of `bytes`.
fn single(bytes: Vec<u8>) -> (r: WorkerStep)
    ensures
        replies_with(r, seq![bytes@]),
{
    let mut items: Vec<Vec<u8>> = Vec::new();
    let ghost b = bytes@;
    items.push(bytes);
    assert(views(items@) =~= seq![b]);
    WorkerStep::Reply(items)
}

/// What a worker does with request `message` from `peer`, read without its
/// surrounding whitespace: answer the greeting and the farewell, resend a
/// cached batch, fetch a URL, or give the reason the request failed.
pub fn handle_request(message: &str, peer: Peer, cache: &BatchesCache) -> (r: WorkerStep)
    ensures
        trimmed(message@) == "Connect"@ ==> replies_with(r, seq![encode_utf8("Accept"@)]),
        trimmed(message@) != "Connect"@ && trimmed(message@) == "BYE"@ ==> replies_with(
            r,
            seq![encode_utf8("BYE"@)],
        ),
        trimmed(message@) != "Connect"@ && trimmed(message@) != "BYE"@ && has_prefix(
            trimmed(message@),
            repeat_prefix(),
        ) ==> match repeat_id(trimmed(message@)) {
            Some(id) => replies_with(r, seq![repeat_reply(cache@, peer, id)]),
            None => r is Ignore,
        },
        trimmed(message@) != "Connect"@ && trimmed(message@) != "BYE"@ && !has_prefix(
            trimmed(message@),
            repeat_prefix(),
        ) ==> match request_url(trimmed(message@)) {
            Some(url) => r matches WorkerStep::Fetch(u) && u@ == url,
            None => r matches WorkerStep::Fail(reason) && reason@ == invalid_url_text(),
        },
{
    let text = trim_text(message);
    if same_text(text, "Connect") {
        return single("Accept".as_bytes_vec());
    }
    if same_text(text, "BYE") {
        return single("BYE".as_bytes_vec());
    }
    if is_batch_repeat_request(text) {
        return match get_batch_id_for_repeat(text) {
            Some(id) => {
                let bytes = match cache.request_batch(peer, id) {
                    Some(frame) => frame,
                    None => {
                        let mut missing = String::from_str("Couldn't get the requested batch with ID ");
                        push_decimal(&mut missing, id);
                        missing.as_str().as_bytes_vec()
                    },
                };
                single(bytes)
            },
            None => WorkerStep::Ignore,
        };
    }
    match ProxyLogic::process_message(text) {
        Ok(url) => WorkerStep::Fetch(url),
        Err(e) => {
            let mut reason = String::from_str("Invalid url, can't parse it: ");
            reason.append(e.as_str());
            WorkerStep::Fail(reason)
        },
    }
}

/// What a worker sends to `peer` once the fetch is done: the content in
/// batches, or the report of why there is none.
pub fn handle_content(
    content: Result<Vec<u8>, String>,
    peer: Peer,
    cache: &mut BatchesCache,
    now: u64,
) -> (r: WorkerStep)
    requires
        now + BATCH_TTL_MS <= u64::MAX,
    ensures
        match content {
            Ok(body) => if fits_batches(body@) {
                sends_batches(r, old(cache)@, final(cache)@, peer, body@, now)
            } else {
                sends_batches(
                    r,
                    old(cache)@,
                    final(cache)@,
                    peer,
                    encode_utf8(request_failure_text(send_failure_text())),
                    now,
                )
            },
            Err(e) => sends_batches(
                r,
                old(cache)@,
                final(cache)@,
                peer,
                encode_utf8(request_failure_text(fetch_failure_text(e@))),
                now,
            ),
        },
{
    match content {
        Ok(body) => {
            match send_message_with_batches(body, peer, cache, now) {
                Ok(frames) => WorkerStep::Reply(frames),
                Err(e) => {
                    let mut reason = String::from_str(
                        "Failure when sending the message back to the client: ",
                    );
                    reason.append(e.as_str());
                    report_failure(reason.as_str(), peer, cache, now)
                },
            }
        },
        Err(e) => {
            let mut reason = String::from_str("Issue while loading the data from target server: ");
            reason.append(e.as_str());
            report_failure(reason.as_str(), peer, cache, now)
        },
    }
}

/// Once a response went out to `peer` in batches, a retransmit request
/// `REPEAT_BATCH:<i>` from that peer, for any of its batches, is answered
/// with exactly the datagram that was first sent as batch `i`.
pub proof fn lemma_retransmit_identical(
    before: Map<BatchKey, CachedFrame>,
    peer: Peer,
    message: Seq<u8>,
    expires: u64,
    i: u32,
)
    requires
        fits_batches(message),
        i < batch_frames(message).len(),
    ensures
        repeat_id(repeat_prefix() + decimal(i as nat)) == Some(i),
        repeat_reply(with_batches(before, peer, batch_frames(message), expires), peer, i)
            == batch_frames(message)[i as int],
{
    let text = repeat_prefix() + decimal(i as nat);
    crate::text::lemma_decimal_reads_back(i as nat);
    assert(text.take(repeat_prefix().len() as int) =~= repeat_prefix());
    assert(text.skip(repeat_prefix().len() as int) =~= decimal(i as nat));
}

} // verus!
