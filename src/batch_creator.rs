//! Cutting a response into the bodies of fixed-size datagram batches.
use vstd::prelude::*;
use vstd::slice::{slice_subrange, slice_to_vec};

verus! {

/// The views of a sequence of byte vectors.
pub open spec fn views(v: Seq<Vec<u8>>) -> Seq<Seq<u8>> {
    v.map_values(|x: Vec<u8>| x@)
}

/// The smaller of two integers.
pub open spec fn min_of(a: int, b: int) -> int {
    if a <= b {
        a
    } else {
        b
    }
}

/// The number of batches of at most `size` bytes that `len` bytes need: `len / size` rounded up.
pub open spec fn batch_count(len: nat, size: nat) -> nat
    recommends
        size > 0,
{
    if len % size == 0 {
        len / size
    } else {
        len / size + 1
    }
}

/// Batch `i` of `p`: the `size` bytes from `i * size` on, or fewer at the end.
pub open spec fn batch_at(p: Seq<u8>, size: nat, i: int) -> Seq<u8> {
    p.subrange(i * size, min_of((i + 1) * size, p.len() as int))
}

/// The batches of `p`, in order.
pub open spec fn split_batches(p: Seq<u8>, size: nat) -> Seq<Seq<u8>> {
    Seq::new(batch_count(p.len(), size), |i: int| batch_at(p, size, i))
}

/// Batch `i` exists exactly when it starts inside the payload.
pub proof fn lemma_batch_index(len: nat, size: nat, i: int)
    requires
        size > 0,
        i >= 0,
    ensures
        (i < batch_count(len, size)) == (i * size < len),
{
    let q = len / size;
    let r = len % size;
    assert(len == q * size + r) by (nonlinear_arith)
        requires
            q == len / size,
            r == len % size,
            size > 0,
    ;
    if i < q {
        assert(i * size < len) by (nonlinear_arith)
            requires
                i < q,
                len == q * size + r,
                r >= 0,
                size > 0,
        ;
    } else if i == q {
        assert(i * size == q * size);
    } else {
        assert(i * size >= (q + 1) * size) by (nonlinear_arith)
            requires
                i >= q + 1,
                size > 0,
        ;
        assert((q + 1) * size == q * size + size) by (nonlinear_arith);
    }
}

/// The batches are counted by `len / size` rounded up, and there are none for an empty payload.
pub proof fn lemma_batch_count(p: Seq<u8>, size: nat)
    requires
        size > 0,
    ensures
        split_batches(p, size).len() == batch_count(p.len(), size),
        batch_count(p.len(), size) * size >= p.len(),
        batch_count(p.len(), size) > 0 ==> (batch_count(p.len(), size) - 1) * size < p.len(),
        p.len() == 0 ==> split_batches(p, size).len() == 0,
{
    let n = batch_count(p.len(), size);
    lemma_batch_index(p.len(), size, n as int);
    if n > 0 {
        lemma_batch_index(p.len(), size, n - 1);
    }
}

/// The first `k` batches, joined, are the payload's first `k * size` bytes (or all of it).
proof fn lemma_batches_prefix(p: Seq<u8>, size: nat, k: int)
    requires
        size > 0,
        0 <= k <= batch_count(p.len(), size),
    ensures
        split_batches(p, size).take(k).flatten_alt() == p.take(min_of(k * size, p.len() as int)),
    decreases k,
{
    let s = split_batches(p, size);
    if k == 0 {
        assert(s.take(0) =~= Seq::<Seq<u8>>::empty());
        assert(p.take(0) =~= Seq::<u8>::empty());
    } else {
        lemma_batches_prefix(p, size, k - 1);
        lemma_batch_index(p.len(), size, k - 1);
        assert(s.take(k).drop_last() =~= s.take(k - 1));
        assert((k - 1) * size + size == k * size) by (nonlinear_arith);
        assert(min_of((k - 1) * size, p.len() as int) == (k - 1) * size);
        assert(p.take(min_of(k * size, p.len() as int)) =~= p.take((k - 1) * size) + batch_at(
            p,
            size,
            k - 1,
        ));
    }
}

/// Joining the batches in order gives back the payload, and every batch but
/// the last is full.
pub proof fn lemma_batches_cover(p: Seq<u8>, size: nat)
    requires
        size > 0,
    ensures
        split_batches(p, size).flatten() == p,
        forall|i: int|
            0 <= i < split_batches(p, size).len() - 1 ==> (#[trigger] split_batches(p, size)[i]).len()
                == size,
        split_batches(p, size).len() > 0 ==> 0 < split_batches(p, size).last().len() <= size,
{
    let s = split_batches(p, size);
    let n = batch_count(p.len(), size);
    lemma_batch_count(p, size);
    lemma_batches_prefix(p, size, n as int);
    assert(s.take(n as int) =~= s);
    assert(p.take(p.len() as int) =~= p);
    s.lemma_flatten_and_flatten_alt_are_equivalent();
    assert forall|i: int| 0 <= i < s.len() - 1 implies (#[trigger] s[i]).len() == size by {
        lemma_batch_index(p.len(), size, i + 1);
        assert((i + 1) * size == i * size + size) by (nonlinear_arith);
    }
    if n > 0 {
        lemma_batch_index(p.len(), size, n - 1);
        assert((n - 1) * size + size == n * size) by (nonlinear_arith);
    }
}

/// Cuts messages into batches of at most `batch_size` bytes.
pub struct MessageBatchCreator {
    batch_size: usize,
}

impl MessageBatchCreator {
    /// The batch size this creator was made with.
    pub closed spec fn size(&self) -> nat {
        self.batch_size as nat
    }

    /// A creator that cuts batches of `batch_size` bytes.
    pub fn new(batch_size: usize) -> (r: MessageBatchCreator)
        ensures
            r.size() == batch_size,
    {
        MessageBatchCreator { batch_size }
    }

    /// The batches of `message`, in order; an error when there would be more
    /// batches than a `u32` can number.
    pub fn break_message(&self, message: Vec<u8>) -> (r: Result<Vec<Vec<u8>>, String>)
        requires
            self.size() > 0,
        ensures
            match r {
                Ok(batches) => batch_count(message@.len(), self.size()) <= u32::MAX && views(
                    batches@,
                ) == split_batches(message@, self.size()),
                Err(e) => batch_count(message@.len(), self.size()) > u32::MAX && e@
                    == "Very long message, can't break into batches"@,
            },
    {
        let len = message.len();
        let size = self.batch_size;
        let count: usize = if len % size == 0 {
            len / size
        } else {
            proof {
                let q = len / size;
                assert(len == size * q + len % size) by (nonlinear_arith)
                    requires
                        q == len / size,
                        size > 0,
                ;
                assert(size != 1);
                assert(q < len) by (nonlinear_arith)
                    requires
                        len == size * q + len % size,
                        size >= 2,
                        q >= 0,
                        len % size > 0,
                ;
            }
            len / size + 1
        };
        if count > u32::MAX as usize {
            return Err(String::from_str("Very long message, can't break into batches"));
        }
        let ghost p = message@;
        let mut all_batches: Vec<Vec<u8>> = Vec::new();
        let mut start: usize = 0;
        let mut i: usize = 0;
        proof {
            lemma_batch_index(len as nat, size as nat, 0);
        }
        while i < count
            invariant
                p == message@,
                len == p.len(),
                size == self.size(),
                size > 0,
                count == batch_count(len as nat, size as nat),
                i <= count,
                i < count ==> start == i * size && start < len,
                all_batches@.len() == i,
                forall|j: int| 0 <= j < i ==> (#[trigger] all_batches@[j])@ == batch_at(p, size as nat, j),
            decreases count - i,
        {
            proof {
                lemma_batch_index(len as nat, size as nat, i + 1);
                assert((i + 1) * size == i * size + size) by (nonlinear_arith);
            }
            let end = if len - start > size {
                start + size
            } else {
                len
            };
            let batch = slice_to_vec(slice_subrange(message.as_slice(), start, end));
            all_batches.push(batch);
            start = end;
            i = i + 1;
        }
        assert(views(all_batches@) =~= split_batches(p, size as nat));
        Ok(all_batches)
    }
}

} // verus!
