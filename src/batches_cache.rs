//! The store of recently sent datagram batches, kept so that a client can ask
//! for one again without the response being fetched anew.
use vstd::prelude::*;
use vstd::slice::slice_to_vec;

verus! {

/// How long a sent batch stays available for retransmission, in milliseconds.
pub const BATCH_TTL_MS: u64 = 300_000;

/// The network address of a datagram peer, as plain values.
#[derive(Clone, Copy, Debug, PartialEq, Eq, Structural)]
pub struct Peer {
    /// The IP address; an IPv4 address takes the low 32 bits.
    pub ip: u128,
    /// The port.
    pub port: u16,
    /// Whether the address is an IPv6 one.
    pub is_v6: bool,
    /// The IPv6 flow information; zero for IPv4.
    pub flowinfo: u32,
    /// The IPv6 scope; zero for IPv4.
    pub scope_id: u32,
}

/// A batch is found by its peer and its index.
pub type BatchKey = (Peer, u32);

/// What the cache holds of a batch: when it expires and its encoded bytes.
pub type CachedFrame = (u64, Seq<u8>);

/// The cache with every entry that expired before `now` removed.
pub open spec fn swept(m: Map<BatchKey, CachedFrame>, now: u64) -> Map<BatchKey, CachedFrame> {
    Map::new(|k: BatchKey| m.contains_key(k) && m[k].0 >= now, |k: BatchKey| m[k])
}

/// One stored batch.
struct CachedBatch {
    peer: Peer,
    batch_id: u32,
    expires_at: u64,
    batch: Vec<u8>,
}

spec fn key_of(e: CachedBatch) -> BatchKey {
    (e.peer, e.batch_id)
}

spec fn keys_unique(s: Seq<CachedBatch>) -> bool {
    forall|i: int, j: int|
        0 <= i < s.len() && 0 <= j < s.len() && i != j ==> key_of(#[trigger] s[i]) != key_of(
            #[trigger] s[j],
        )
}

spec fn has_key(s: Seq<CachedBatch>, k: BatchKey) -> bool {
    exists|i: int| 0 <= i < s.len() && key_of(#[trigger] s[i]) == k
}

spec fn index_of(s: Seq<CachedBatch>, k: BatchKey) -> int {
    choose|i: int| 0 <= i < s.len() && key_of(#[trigger] s[i]) == k
}

spec fn map_of(s: Seq<CachedBatch>) -> Map<BatchKey, CachedFrame> {
    Map::new(
        |k: BatchKey| has_key(s, k),
        |k: BatchKey| (s[index_of(s, k)].expires_at, s[index_of(s, k)].batch@),
    )
}

proof fn lemma_index_of(s: Seq<CachedBatch>, i: int)
    requires
        keys_unique(s),
        0 <= i < s.len(),
    ensures
        has_key(s, key_of(s[i])),
        index_of(s, key_of(s[i])) == i,
{
    let k = key_of(s[i]);
    assert(has_key(s, k));
    let j = index_of(s, k);
    assert(0 <= j < s.len() && key_of(s[j]) == k);
}

proof fn lemma_replace_entry(s: Seq<CachedBatch>, i: int, e: CachedBatch)
    requires
        keys_unique(s),
        0 <= i < s.len(),
        key_of(s[i]) == key_of(e),
    ensures
        keys_unique(s.update(i, e)),
        map_of(s.update(i, e)) == map_of(s).insert(key_of(e), (e.expires_at, e.batch@)),
{
    let t = s.update(i, e);
    assert(forall|j: int| 0 <= j < s.len() ==> key_of(#[trigger] t[j]) == key_of(s[j]));
    assert forall|kk: BatchKey| #[trigger] has_key(t, kk) == has_key(s, kk) by {
        if has_key(s, kk) {
            let j = index_of(s, kk);
            assert(key_of(t[j]) == kk);
        }
        if has_key(t, kk) {
            let j = index_of(t, kk);
            assert(key_of(s[j]) == kk);
        }
    }
    assert forall|kk: BatchKey| has_key(t, kk) && kk != key_of(e) implies #[trigger] index_of(t, kk)
        == index_of(s, kk) by {
        let j = index_of(s, kk);
        lemma_index_of(t, j);
    }
    lemma_index_of(t, i);
    assert(map_of(t) =~= map_of(s).insert(key_of(e), (e.expires_at, e.batch@)));
}

proof fn lemma_append_entry(s: Seq<CachedBatch>, e: CachedBatch)
    requires
        keys_unique(s),
        !has_key(s, key_of(e)),
    ensures
        keys_unique(s.push(e)),
        map_of(s.push(e)) == map_of(s).insert(key_of(e), (e.expires_at, e.batch@)),
{
    let t = s.push(e);
    assert(forall|j: int| 0 <= j < s.len() ==> key_of(#[trigger] s[j]) != key_of(e));
    assert forall|kk: BatchKey| #[trigger] has_key(t, kk) == (has_key(s, kk) || kk == key_of(e)) by {
        if has_key(s, kk) {
            let j = index_of(s, kk);
            assert(key_of(t[j]) == kk);
        }
        if kk == key_of(e) {
            assert(key_of(t[s.len() as int]) == kk);
        }
        if has_key(t, kk) && kk != key_of(e) {
            let j = index_of(t, kk);
            assert(key_of(s[j]) == kk);
        }
    }
    assert forall|kk: BatchKey| has_key(t, kk) && kk != key_of(e) implies #[trigger] index_of(t, kk)
        == index_of(s, kk) by {
        let j = index_of(s, kk);
        lemma_index_of(t, j);
    }
    lemma_index_of(t, s.len() as int);
    assert(map_of(t) =~= map_of(s).insert(key_of(e), (e.expires_at, e.batch@)));
}

spec fn same_entry(a: CachedBatch, b: CachedBatch) -> bool {
    key_of(a) == key_of(b) && a.expires_at == b.expires_at && a.batch@ == b.batch@
}

/// `kept` holds, in order, copies of the entries of `s` at the increasing
/// positions `src`.
spec fn copies_of(kept: Seq<CachedBatch>, src: Seq<int>, s: Seq<CachedBatch>) -> bool {
    &&& kept.len() == src.len()
    &&& forall|x: int| 0 <= x < src.len() ==> 0 <= #[trigger] src[x] < s.len()
    &&& forall|x: int| 0 <= x < src.len() ==> same_entry(#[trigger] kept[x], s[src[x]])
    &&& forall|x: int, y: int| 0 <= x < y < src.len() ==> #[trigger] src[x] < #[trigger] src[y]
}

proof fn lemma_sweep_result(kept: Seq<CachedBatch>, src: Seq<int>, s: Seq<CachedBatch>, now: u64)
    requires
        keys_unique(s),
        copies_of(kept, src, s),
        forall|x: int| 0 <= x < src.len() ==> s[#[trigger] src[x]].expires_at >= now,
        forall|j: int|
            0 <= j < s.len() && (#[trigger] s[j]).expires_at >= now ==> exists|x: int|
                0 <= x < src.len() && src[x] == j,
    ensures
        keys_unique(kept),
        map_of(kept) == swept(map_of(s), now),
{
    assert forall|a: int, b: int|
        0 <= a < kept.len() && 0 <= b < kept.len() && a != b implies key_of(#[trigger] kept[a])
        != key_of(#[trigger] kept[b]) by {
        assert(same_entry(kept[a], s[src[a]]));
        assert(same_entry(kept[b], s[src[b]]));
        if a < b {
            assert(src[a] < src[b]);
        } else {
            assert(src[b] < src[a]);
        }
    }
    assert forall|kk: BatchKey| #[trigger] has_key(kept, kk) == (has_key(s, kk) && map_of(s)[kk].0 >= now) by {
        if has_key(kept, kk) {
            let x = index_of(kept, kk);
            assert(same_entry(kept[x], s[src[x]]));
            lemma_index_of(s, src[x]);
        }
        if has_key(s, kk) && map_of(s)[kk].0 >= now {
            let j = index_of(s, kk);
            assert(s[j].expires_at >= now);
            let x = choose|x: int| 0 <= x < src.len() && src[x] == j;
            assert(same_entry(kept[x], s[src[x]]));
            assert(key_of(kept[x]) == kk);
        }
    }
    assert forall|kk: BatchKey| has_key(kept, kk) implies #[trigger] map_of(kept)[kk] == map_of(s)[kk] by {
        let x = index_of(kept, kk);
        assert(same_entry(kept[x], s[src[x]]));
        lemma_index_of(s, src[x]);
    }
    assert(map_of(kept) =~= swept(map_of(s), now));
}

/// Recently sent batches, by peer and batch index.
pub struct BatchesCache {
    recent_batches: Vec<CachedBatch>,
}

impl BatchesCache {
    #[verifier::type_invariant]
    spec fn keys_are_unique(self) -> bool {
        keys_unique(self.recent_batches@)
    }

    /// For each cached batch, when it expires and its bytes.
    pub closed spec fn view(&self) -> Map<BatchKey, CachedFrame> {
        map_of(self.recent_batches@)
    }

    /// An empty cache.
    pub fn new() -> (r: BatchesCache)
        ensures
            r@ == Map::<BatchKey, CachedFrame>::empty(),
    {
        let r = BatchesCache { recent_batches: Vec::new() };
        assert(r@ =~= Map::<BatchKey, CachedFrame>::empty());
        r
    }

    /// Where the batch `batch_id` sent to `peer` is stored, if it is.
    fn position(&self, peer: Peer, batch_id: u32) -> (r: Option<usize>)
        ensures
            match r {
                Some(i) => i < self.recent_batches@.len() && key_of(self.recent_batches@[i as int])
                    == (peer, batch_id),
                None => !has_key(self.recent_batches@, (peer, batch_id)),
            },
    {
        let mut i: usize = 0;
        while i < self.recent_batches.len()
            invariant
                i <= self.recent_batches@.len(),
                forall|j: int| 0 <= j < i ==> key_of(#[trigger] self.recent_batches@[j]) != (peer, batch_id),
            decreases self.recent_batches@.len() - i,
        {
            let e = &self.recent_batches[i];
            if e.peer == peer && e.batch_id == batch_id {
                return Some(i);
            }
            i = i + 1;
        }
        None
    }

    /// Stores `batch` as batch `batch_id` sent to `peer` at time `now`
    /// (milliseconds), replacing what was stored for them; it expires
    /// [`BATCH_TTL_MS`] later.
    pub fn add_batch(&mut self, peer: Peer, batch_id: u32, batch: Vec<u8>, now: u64)
        requires
            now + BATCH_TTL_MS <= u64::MAX,
        ensures
            final(self)@ == old(self)@.insert(
                (peer, batch_id),
                ((now + BATCH_TTL_MS) as u64, batch@),
            ),
    {
        proof {
            use_type_invariant(&*self);
        }
        let ghost old_s = self.recent_batches@;
        let entry = CachedBatch { peer, batch_id, expires_at: now + BATCH_TTL_MS, batch };
        let found = self.position(peer, batch_id);
        let mut entries = Vec::new();
        std::mem::swap(&mut entries, &mut self.recent_batches);
        match found {
            Some(i) => {
                entries.set(i, entry);
            },
            None => {
                entries.push(entry);
            },
        }
        proof {
            match found {
                Some(i) => lemma_replace_entry(old_s, i as int, entries@[i as int]),
                None => lemma_append_entry(old_s, entries@.last()),
            }
        }
        self.recent_batches = entries;
    }

    /// The bytes stored for batch `batch_id` sent to `peer`, expired or not.
    pub fn request_batch(&self, peer: Peer, batch_id: u32) -> (r: Option<Vec<u8>>)
        ensures
            match r {
                Some(b) => self@.contains_key((peer, batch_id)) && b@ == self@[(peer, batch_id)].1,
                None => !self@.contains_key((peer, batch_id)),
            },
    {
        proof {
            use_type_invariant(self);
        }
        match self.position(peer, batch_id) {
            Some(i) => {
                proof {
                    lemma_index_of(self.recent_batches@, i as int);
                }
                Some(slice_to_vec(self.recent_batches[i].batch.as_slice()))
            },
            None => None,
        }
    }

    /// Removes every batch that expired before `now` (milliseconds).
    pub fn cleanup(&mut self, now: u64)
        ensures
            final(self)@ == swept(old(self)@, now),
    {
        proof {
            use_type_invariant(&*self);
        }
        let ghost s = self.recent_batches@;
        let mut kept: Vec<CachedBatch> = Vec::new();
        let ghost mut src: Seq<int> = Seq::empty();
        let mut i: usize = 0;
        while i < self.recent_batches.len()
            invariant
                s == self.recent_batches@,
                keys_unique(s),
                i <= s.len(),
                copies_of(kept@, src, s),
                forall|x: int| 0 <= x < src.len() ==> #[trigger] src[x] < i,
                forall|x: int| 0 <= x < src.len() ==> s[#[trigger] src[x]].expires_at >= now,
                forall|j: int|
                    0 <= j < i && (#[trigger] s[j]).expires_at >= now ==> exists|x: int|
                        0 <= x < src.len() && src[x] == j,
            decreases s.len() - i,
        {
            let e = &self.recent_batches[i];
            if e.expires_at >= now {
                let copy = CachedBatch {
                    peer: e.peer,
                    batch_id: e.batch_id,
                    expires_at: e.expires_at,
                    batch: slice_to_vec(e.batch.as_slice()),
                };
                kept.push(copy);
                proof {
                    let old_src = src;
                    src = src.push(i as int);
                    assert(src[src.len() - 1] == i);
                    assert forall|j: int|
                        0 <= j < i + 1 && (#[trigger] s[j]).expires_at >= now implies exists|x: int|
                        0 <= x < src.len() && src[x] == j by {
                        if j < i {
                            let x = choose|x: int| 0 <= x < old_src.len() && old_src[x] == j;
                            assert(src[x] == j);
                        } else {
                            assert(src[src.len() - 1] == j);
                        }
                    }
                }
            }
            i = i + 1;
        }
        proof {
            lemma_sweep_result(kept@, src, s, now);
        }
        self.recent_batches = kept;
    }
}

/// A batch stored at `t0` is gone after a sweep at any time past its
/// lifetime, and still there, unchanged, after a sweep before the lifetime ends.
pub proof fn lemma_cache_expiry(
    m: Map<BatchKey, CachedFrame>,
    k: BatchKey,
    frame: Seq<u8>,
    t0: u64,
    t: u64,
)
    requires
        t0 + BATCH_TTL_MS <= u64::MAX,
    ensures
        t > t0 + BATCH_TTL_MS ==> !swept(m.insert(k, ((t0 + BATCH_TTL_MS) as u64, frame)), t).contains_key(k),
        t < t0 + BATCH_TTL_MS ==> swept(m.insert(k, ((t0 + BATCH_TTL_MS) as u64, frame)), t).contains_key(k)
            && swept(m.insert(k, ((t0 + BATCH_TTL_MS) as u64, frame)), t)[k].1 == frame,
{
}

} // verus!
