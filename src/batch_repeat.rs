//! Requests for a batch to be sent again: `REPEAT_BATCH:<decimal index>`.
use vstd::prelude::*;

use crate::text::{
    all_digits, chars_of, digits_value, has_prefix, is_digit, lemma_digits_value_grows,
    starts_with_chars,
};

verus! {

/// The text every retransmit request begins with.
pub open spec fn repeat_prefix() -> Seq<char> {
    "REPEAT_BATCH:"@
}

/// The batch index a retransmit request asks for: the digits after the prefix,
/// when there is at least one, there is nothing else, and they fit a `u32`.
pub open spec fn repeat_id(message: Seq<char>) -> Option<u32> {
    let digits = message.skip(repeat_prefix().len() as int);
    if has_prefix(message, repeat_prefix()) && digits.len() > 0 && all_digits(digits)
        && digits_value(digits) <= u32::MAX {
        Some(digits_value(digits) as u32)
    } else {
        None
    }
}

/// Whether `message` is a retransmit request.
pub fn is_batch_repeat_request(message: &str) -> (r: bool)
    ensures
        r == has_prefix(message@, repeat_prefix()),
{
    starts_with_chars(&chars_of(message), &chars_of("REPEAT_BATCH:"))
}

/// The batch index that a retransmit request asks for, or `None` when it is malformed.
pub fn get_batch_id_for_repeat(message: &str) -> (r: Option<u32>)
    ensures
        r == repeat_id(message@),
{
    let chars = chars_of(message);
    let prefix = chars_of("REPEAT_BATCH:");
    if !starts_with_chars(&chars, &prefix) {
        return None;
    }
    let start = prefix.len();
    if chars.len() == start {
        return None;
    }
    let ghost digits = message@.skip(start as int);
    let mut value: u64 = 0;
    let mut i: usize = start;
    while i < chars.len()
        invariant
            chars@ == message@,
            start == repeat_prefix().len(),
            start <= i <= chars@.len(),
            digits == chars@.skip(start as int),
            forall|j: int| 0 <= j < i - start ==> is_digit(#[trigger] digits[j]),
            value == digits_value(digits.take(i - start)),
            value <= u32::MAX,
        decreases chars@.len() - i,
    {
        let c = chars[i];
        if !('0' <= c && c <= '9') {
            assert(!is_digit(digits[i - start]));
            return None;
        }
        let ghost k = i - start;
        proof {
            assert(digits.take(k + 1).drop_last() =~= digits.take(k));
            assert(digits.take(k + 1).last() == c);
        }
        value = value * 10 + (c as u64 - '0' as u64);
        assert(value == digits_value(digits.take(k + 1)));
        if value > u32::MAX as u64 {
            proof {
                if all_digits(digits) {
                    lemma_digits_value_grows(digits, k + 1);
                }
            }
            return None;
        }
        i = i + 1;
    }
    assert(digits.take(digits.len() as int) =~= digits);
    Some(value as u32)
}

} // verus!
