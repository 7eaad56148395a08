//! The decisions of the task that owns the datagram socket: which received
//! datagrams become requests, and when an idle loop should pause.
use vstd::prelude::*;
use vstd::utf8::encode_utf8;

use crate::text::{decode_lossy, lossy_utf8, trim_text, trimmed};
use crate::udp_headers::{datagram_of, CustomProtocolProcessor};

verus! {

/// The largest datagram accepted as a request.
pub const MAX_MESSAGE_SIZE: usize = 10000;

/// The receive buffer: one byte more than allowed, so that a longer datagram shows.
pub const MAX_BATCH_SIZE: usize = MAX_MESSAGE_SIZE + 1;

/// Consecutive idle loops after which the pump pauses.
pub const IDLE_LOOPS_BEFORE_SLEEP: u32 = 50;

/// How long an idle pump pauses, in milliseconds.
pub const IDLE_SLEEP_MS: u64 = 25;

/// The datagram that reports a failure to a peer: the text as a single batch.
pub open spec fn failure_datagram(message: Seq<char>) -> Seq<u8> {
    datagram_of(0, 1, encode_utf8(message))
}

/// The report sent back for a datagram that is too long.
pub open spec fn oversize_text() -> Seq<char> {
    "Invalid message length, max is 10000"@
}

/// The datagram that reports `message` to a peer.
pub fn failure_frame(message: &str) -> (r: Vec<u8>)
    ensures
        r@ == failure_datagram(message@),
{
    CustomProtocolProcessor::add_headers(message.as_bytes(), 0, 1)
}

/// What becomes of a received datagram.
#[derive(Debug)]
pub enum Intake {
    /// Pass this request text, trimmed, on to the workers.
    Request(String),
    /// Send this report back to the peer and drop the datagram.
    Reject(Vec<u8>),
}

/// What becomes of `datagram`: its text, trimmed, as a request, or a report when it is too long.
pub fn intake(datagram: &[u8]) -> (r: Intake)
    ensures
        datagram@.len() > MAX_MESSAGE_SIZE ==> (r matches Intake::Reject(f) && f@ == failure_datagram(
            oversize_text(),
        )),
        datagram@.len() <= MAX_MESSAGE_SIZE ==> (r matches Intake::Request(t) && t@ == trimmed(
            lossy_utf8(datagram@),
        )),
{
    if datagram.len() > MAX_MESSAGE_SIZE {
        Intake::Reject(failure_frame("Invalid message length, max is 10000"))
    } else {
        let text = decode_lossy(datagram);
        Intake::Request(trim_text(text.as_str()).to_owned())
    }
}

/// The idle count after a loop that moved something (`active`) or not.
pub open spec fn next_idle_count(count: nat, active: bool) -> nat {
    if active {
        0
    } else if count < IDLE_LOOPS_BEFORE_SLEEP {
        count + 1
    } else {
        count
    }
}

/// Whether a loop ends with a pause, given the idle count before it.
pub open spec fn pauses(count: nat, active: bool) -> bool {
    !active && count >= IDLE_LOOPS_BEFORE_SLEEP
}

/// Counts consecutive idle loops of the pump.
pub struct IdleBackoff {
    idle_loop_counter: u32,
}

impl IdleBackoff {
    #[verifier::type_invariant]
    spec fn bounded(self) -> bool {
        self.idle_loop_counter <= IDLE_LOOPS_BEFORE_SLEEP
    }

    /// The number of idle loops counted, up to the threshold.
    pub closed spec fn count(&self) -> nat {
        self.idle_loop_counter as nat
    }

    /// A counter with no idle loop yet.
    pub fn new() -> (r: IdleBackoff)
        ensures
            r.count() == 0,
    {
        IdleBackoff { idle_loop_counter: 0 }
    }

    /// Records the end of a loop, `active` when a request or a response moved
    /// in it; returns whether the pump should now pause for [`IDLE_SLEEP_MS`].
    pub fn end_iteration(&mut self, active: bool) -> (r: bool)
        ensures
            final(self).count() == next_idle_count(old(self).count(), active),
            r == pauses(old(self).count(), active),
    {
        proof {
            use_type_invariant(&*self);
        }
        if active {
            self.idle_loop_counter = 0;
            false
        } else if self.idle_loop_counter < IDLE_LOOPS_BEFORE_SLEEP {
            self.idle_loop_counter = self.idle_loop_counter + 1;
            false
        } else {
            true
        }
    }
}

/// The number of idle loops at the end of a history of loops (`true` for a
/// loop that moved something).
pub open spec fn idle_run(history: Seq<bool>) -> nat
    decreases history.len(),
{
    if history.len() == 0 {
        0
    } else if history.last() {
        0
    } else {
        idle_run(history.drop_last()) + 1
    }
}

/// The idle count of a fresh counter after a history of loops.
pub open spec fn count_after(history: Seq<bool>) -> nat
    decreases history.len(),
{
    if history.len() == 0 {
        0
    } else {
        next_idle_count(count_after(history.drop_last()), history.last())
    }
}

/// Starting from a fresh counter, a loop pauses exactly when it is idle and
/// follows at least [`IDLE_LOOPS_BEFORE_SLEEP`] consecutive idle loops, and any
/// activity brings the count back to zero.
pub proof fn lemma_idle_backoff(history: Seq<bool>, active: bool)
    ensures
        count_after(history) == if idle_run(history) < IDLE_LOOPS_BEFORE_SLEEP {
            idle_run(history)
        } else {
            IDLE_LOOPS_BEFORE_SLEEP as nat
        },
        pauses(count_after(history), active) == (!active && idle_run(history)
            >= IDLE_LOOPS_BEFORE_SLEEP),
        active ==> count_after(history.push(active)) == 0,
    decreases history.len(),
{
    if history.len() > 0 {
        lemma_idle_backoff(history.drop_last(), history.last());
    }
    assert(history.push(active).drop_last() =~= history);
}

} // verus!
