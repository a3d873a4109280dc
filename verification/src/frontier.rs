//! URL frontier: a priority queue of URLs to crawl with hash-based
//! deduplication and an overflow store for what does not fit in memory.
//!
//! The frontier decides; the caller does the storage work. Entries that
//! overflow a store-backed frontier are parked until the caller takes them
//! (`take_overflow`) and writes them; `needs_refill` says when the caller
//! should read a batch back and hand it to `refill`.

use vstd::prelude::*;
use std::collections::HashMap;
use crate::text::{chars_of, str_eq, string_of};

verus! {

broadcast use vstd::std_specs::hash::group_hash_axioms;

/// A URL queued for crawling, with priority metadata.
#[derive(Debug, Clone)]
pub struct FrontierEntry {
    pub url: String,
    pub url_hash: [u8; 32],
    pub depth: u32,
    pub priority: i32,
    pub source_page_id: Option<i64>,
}

/// `a` is dequeued before `b`: higher priority first, and for equal
/// priority the lower depth (breadth first).
pub open spec fn outranks(a: FrontierEntry, b: FrontierEntry) -> bool {
    a.priority > b.priority || (a.priority == b.priority && a.depth < b.depth)
}

/// `i` is the first position of a highest-ranked entry of `q`.
pub open spec fn is_top(q: Seq<FrontierEntry>, i: int) -> bool {
    &&& 0 <= i < q.len()
    &&& forall|j: int| 0 <= j < i ==> outranks(q[i], #[trigger] q[j])
    &&& forall|j: int| i < j < q.len() ==> !outranks(#[trigger] q[j], q[i])
}

// ---------------------------------------------------------------------------
// Hashing
// ---------------------------------------------------------------------------

/// The BLAKE3 digest of the UTF-8 encoding of a text.
pub uninterp spec fn blake3_digest_of(s: Seq<char>) -> Seq<u8>;

/// Calls `blake3::hash` on the UTF-8 bytes of `s` and returns the 32-byte
/// digest. The contract names the digest as a function of the text alone;
/// nothing more of BLAKE3 is stated.
#[verifier::external_body]
pub(crate) fn blake3_digest(s: &str) -> (r: [u8; 32])
    ensures
        r@ == blake3_digest_of(s@),
{
    blake3::hash(s.as_bytes()).into()
}

/// Compute the BLAKE3 hash of a normalized URL string.
pub fn hash_url(normalized_url: &str) -> (r: [u8; 32])
    ensures
        r@ == blake3_digest_of(normalized_url@),
{
    blake3_digest(normalized_url)
}

/// Whether two hashes are equal.
fn same_hash(a: &[u8; 32], b: &[u8; 32]) -> (r: bool)
    ensures
        r == (a@ == b@),
{
    let mut i: usize = 0;
    while i < 32
        invariant
            i <= 32,
            a@.len() == 32,
            b@.len() == 32,
            forall|j: int| 0 <= j < i ==> a@[j] == b@[j],
        decreases 32 - i,
    {
        if a[i] != b[i] {
            return false;
        }
        i = i + 1;
    }
    assert(a@ =~= b@);
    true
}

/// The bucket a hash is kept in: its first four bytes as a number.
pub open spec fn bucket_key(h: Seq<u8>) -> u64 {
    (h[0] as int * 16777216 + h[1] as int * 65536 + h[2] as int * 256 + h[3] as int) as u64
}

fn bucket_key_of(h: &[u8; 32]) -> (r: u64)
    ensures
        r == bucket_key(h@),
{
    (h[0] as u64) * 16777216 + (h[1] as u64) * 65536 + (h[2] as u64) * 256 + (h[3] as u64)
}

/// Some hash of the bucket equals `h`.
pub open spec fn bucket_has(b: Seq<[u8; 32]>, h: Seq<u8>) -> bool {
    exists|i: int| 0 <= i < b.len() && (#[trigger] b[i])@ == h
}

/// The buckets hold exactly the hashes of `s`, each in its own bucket.
pub open spec fn buckets_hold(m: Map<u64, Vec<[u8; 32]>>, s: Set<Seq<u8>>) -> bool {
    &&& s.finite()
    &&& forall|h: Seq<u8>|
        #[trigger] s.contains(h) <==> (m.contains_key(bucket_key(h)) && bucket_has(
            m[bucket_key(h)]@,
            h,
        ))
}

// ---------------------------------------------------------------------------
// Frontier
// ---------------------------------------------------------------------------

/// The most recent fetch time recorded for `domain`.
pub open spec fn latest_fetch(log: Seq<(Seq<char>, u64)>, domain: Seq<char>) -> Option<u64>
    decreases log.len(),
{
    if log.len() == 0 {
        None
    } else if log.last().0 == domain {
        Some(log.last().1)
    } else {
        latest_fetch(log.drop_last(), domain)
    }
}

/// The URL frontier manages discovered URLs for crawling.
pub struct UrlFrontier {
    /// In-memory working set.
    heap: Vec<FrontierEntry>,
    /// Entries to keep in memory before overflowing to the store.
    heap_capacity: usize,
    /// Below this many in-memory entries, refill from the store.
    refill_threshold: usize,
    /// Hashes already seen, bucketed by their first bytes.
    seen: HashMap<u64, Vec<[u8; 32]>>,
    seen_set: Ghost<Set<Seq<u8>>>,
    /// Per-domain fetch times (milliseconds), in the order recorded.
    fetch_log: Vec<(String, u64)>,
    /// URLs discovered (including those overflowed to the store).
    total_discovered: u64,
    /// URLs dequeued and sent for fetching.
    total_dequeued: u64,
    /// Whether a backing store takes overflow.
    store_backed: bool,
    /// Crawl the stored overflow belongs to.
    crawl_id: String,
    /// URLs overflowed to the store and not yet refilled.
    overflow_count: u64,
    /// Overflowed entries the caller has not yet written to the store.
    pending_overflow: Vec<FrontierEntry>,
}

impl UrlFrontier {
    /// The in-memory queue.
    pub closed spec fn queue(self) -> Seq<FrontierEntry> {
        self.heap@
    }

    /// The hashes seen so far.
    pub closed spec fn seen(self) -> Set<Seq<u8>> {
        self.seen_set@
    }

    pub closed spec fn capacity(self) -> nat {
        self.heap_capacity as nat
    }

    pub closed spec fn threshold(self) -> nat {
        self.refill_threshold as nat
    }

    pub closed spec fn discovered(self) -> nat {
        self.total_discovered as nat
    }

    pub closed spec fn dequeued(self) -> nat {
        self.total_dequeued as nat
    }

    pub closed spec fn overflow(self) -> nat {
        self.overflow_count as nat
    }

    pub closed spec fn is_store_backed(self) -> bool {
        self.store_backed
    }

    pub closed spec fn pending(self) -> Seq<FrontierEntry> {
        self.pending_overflow@
    }

    pub closed spec fn crawl(self) -> Seq<char> {
        self.crawl_id@
    }

    pub closed spec fn fetches(self) -> Seq<(Seq<char>, u64)> {
        self.fetch_log@.map_values(|p: (String, u64)| (p.0@, p.1))
    }

    /// Well-formedness: the buckets hold exactly the seen hashes, and the
    /// overflow count never exceeds the number discovered.
    pub closed spec fn wf(self) -> bool {
        &&& buckets_hold(self.seen@, self.seen_set@)
        &&& self.overflow_count <= self.total_discovered
    }

    /// Create a new in-memory frontier with the given heap capacity.
    pub fn new(heap_capacity: usize) -> (r: Self)
        ensures
            r.wf(),
            r.queue().len() == 0,
            r.seen() == Set::<Seq<u8>>::empty(),
            r.capacity() == heap_capacity,
            r.threshold() == heap_capacity / 4,
            r.discovered() == 0,
            r.dequeued() == 0,
            r.overflow() == 0,
            !r.is_store_backed(),
            r.pending().len() == 0,
            r.crawl().len() == 0,
            r.fetches().len() == 0,
    {
        let r = UrlFrontier {
            heap: Vec::new(),
            heap_capacity,
            refill_threshold: heap_capacity / 4,
            seen: HashMap::new(),
            seen_set: Ghost(Set::empty()),
            fetch_log: Vec::new(),
            total_discovered: 0,
            total_dequeued: 0,
            store_backed: false,
            crawl_id: String::new(),
            overflow_count: 0,
            pending_overflow: Vec::new(),
        };
        assert(r.fetches() =~= Seq::<(Seq<char>, u64)>::empty());
        r
    }

    /// Create a frontier whose overflow goes to a backing store, for the
    /// given crawl.
    pub fn with_db(heap_capacity: usize, crawl_id: String) -> (r: Self)
        ensures
            r.wf(),
            r.queue().len() == 0,
            r.seen() == Set::<Seq<u8>>::empty(),
            r.capacity() == heap_capacity,
            r.threshold() == heap_capacity / 4,
            r.discovered() == 0,
            r.dequeued() == 0,
            r.overflow() == 0,
            r.is_store_backed(),
            r.pending().len() == 0,
            r.crawl() == crawl_id@,
            r.fetches().len() == 0,
    {
        let mut r = Self::new(heap_capacity);
        r.store_backed = true;
        r.crawl_id = crawl_id;
        r
    }

    /// Check if a URL hash has already been seen.
    pub fn contains(&self, hash: &[u8; 32]) -> (r: bool)
        requires
            self.wf(),
        ensures
            r == self.seen().contains(hash@),
    {
        let k = bucket_key_of(hash);
        match self.seen.get(&k) {
            None => false,
            Some(bucket) => {
                assert(self.seen@.contains_key(k) && self.seen@[k] == *bucket);
                let mut i: usize = 0;
                while i < bucket.len()
                    invariant
                        i <= bucket@.len(),
                        self.seen@.contains_key(k),
                        self.seen@[k] == *bucket,
                        k == bucket_key(hash@),
                        buckets_hold(self.seen@, self.seen_set@),
                        forall|j: int| 0 <= j < i ==> (#[trigger] bucket@[j])@ != hash@,
                    decreases bucket.len() - i,
                {
                    if same_hash(&bucket[i], hash) {
                        assert(bucket_has(bucket@, hash@));
                        assert(self.seen_set@.contains(hash@));
                        return true;
                    }
                    i = i + 1;
                }
                false
            },
        }
    }

    /// Record a hash as seen.
    fn mark_seen(&mut self, h: [u8; 32])
        requires
            old(self).wf(),
            !old(self).seen().contains(h@),
        ensures
            final(self).wf(),
            final(self).seen() == old(self).seen().insert(h@),
            final(self).heap@ == old(self).heap@,
            final(self).heap_capacity == old(self).heap_capacity,
            final(self).refill_threshold == old(self).refill_threshold,
            final(self).fetch_log@ == old(self).fetch_log@,
            final(self).total_discovered == old(self).total_discovered,
            final(self).total_dequeued == old(self).total_dequeued,
            final(self).store_backed == old(self).store_backed,
            final(self).crawl_id@ == old(self).crawl_id@,
            final(self).overflow_count == old(self).overflow_count,
            final(self).pending_overflow@ == old(self).pending_overflow@,
    {
        let k = bucket_key_of(&h);
        let ghost m0 = self.seen@;
        let removed = self.seen.remove(&k);
        let mut bucket: Vec<[u8; 32]> = match removed {
            Some(b) => b,
            None => Vec::new(),
        };
        let ghost b0 = bucket@;
        bucket.push(h);
        self.seen.insert(k, bucket);
        self.seen_set = Ghost(self.seen_set@.insert(h@));
        proof {
            let m1 = self.seen@;
            let s1 = self.seen_set@;
            assert(m1 == m0.insert(k, bucket));
            assert(m0.contains_key(k) ==> b0 == m0[k]@);
            assert forall|g: Seq<u8>| #[trigger]
                s1.contains(g) <==> (m1.contains_key(bucket_key(g)) && bucket_has(
                    m1[bucket_key(g)]@,
                    g,
                )) by {
                if bucket_key(g) == k {
                    assert(m1[k]@ == b0.push(h));
                    if g == h@ {
                        assert(m1[k]@[b0.len() as int] == h);
                    } else if bucket_has(b0.push(h), g) {
                        let i = choose|i: int| 0 <= i < b0.len() + 1 && (#[trigger] b0.push(h)[i])@ == g;
                        assert(b0[i] == b0.push(h)[i]);
                        assert(m0.contains_key(k));
                    } else if m0.contains_key(k) && bucket_has(m0[k]@, g) {
                        let i = choose|i: int| 0 <= i < b0.len() && (#[trigger] b0[i])@ == g;
                        assert(b0.push(h)[i] == b0[i]);
                    }
                } else {
                    assert(m1.contains_key(bucket_key(g)) == m0.contains_key(bucket_key(g)));
                }
            }
        }
    }

    /// Add a URL to the frontier. Returns `false` if its hash was already
    /// seen. A new entry goes to the in-memory queue while that is below
    /// capacity (or when there is no backing store); otherwise it is parked
    /// for the caller to write to the store and counted as overflow.
    pub fn push(&mut self, entry: FrontierEntry) -> (added: bool)
        requires
            old(self).wf(),
            old(self).discovered() < u64::MAX,
        ensures
            final(self).wf(),
            added == !old(self).seen().contains(entry.url_hash@),
            final(self).seen() == old(self).seen().insert(entry.url_hash@),
            final(self).capacity() == old(self).capacity(),
            final(self).threshold() == old(self).threshold(),
            final(self).dequeued() == old(self).dequeued(),
            final(self).is_store_backed() == old(self).is_store_backed(),
            final(self).crawl() == old(self).crawl(),
            final(self).fetches() == old(self).fetches(),
            !added ==> {
                &&& final(self).queue() == old(self).queue()
                &&& final(self).discovered() == old(self).discovered()
                &&& final(self).overflow() == old(self).overflow()
                &&& final(self).pending() == old(self).pending()
            },
            added ==> final(self).discovered() == old(self).discovered() + 1,
            added && (old(self).queue().len() < old(self).capacity()
                || !old(self).is_store_backed()) ==> {
                &&& final(self).queue() == old(self).queue().push(entry)
                &&& final(self).overflow() == old(self).overflow()
                &&& final(self).pending() == old(self).pending()
            },
            added && old(self).queue().len() >= old(self).capacity()
                && old(self).is_store_backed() ==> {
                &&& final(self).queue() == old(self).queue()
                &&& final(self).overflow() == old(self).overflow() + 1
                &&& final(self).pending() == old(self).pending().push(entry)
            },
    {
        if self.contains(&entry.url_hash) {
            assert(self.seen().insert(entry.url_hash@) =~= self.seen());
            return false;
        }
        self.mark_seen(entry.url_hash);
        self.total_discovered = self.total_discovered + 1;
        if self.heap.len() < self.heap_capacity || !self.store_backed {
            self.heap.push(entry);
        } else {
            self.overflow_count = self.overflow_count + 1;
            self.pending_overflow.push(entry);
        }
        true
    }

    /// Hand over the overflowed entries the caller must write to the store.
    pub fn take_overflow(&mut self) -> (r: Vec<FrontierEntry>)
        requires
            old(self).wf(),
        ensures
            final(self).wf(),
            r@ == old(self).pending(),
            final(self).pending().len() == 0,
            final(self).queue() == old(self).queue(),
            final(self).seen() == old(self).seen(),
            final(self).capacity() == old(self).capacity(),
            final(self).threshold() == old(self).threshold(),
            final(self).discovered() == old(self).discovered(),
            final(self).dequeued() == old(self).dequeued(),
            final(self).overflow() == old(self).overflow(),
            final(self).is_store_backed() == old(self).is_store_backed(),
            final(self).crawl() == old(self).crawl(),
            final(self).fetches() == old(self).fetches(),
    {
        let mut taken: Vec<FrontierEntry> = Vec::new();
        std::mem::swap(&mut taken, &mut self.pending_overflow);
        taken
    }

    /// An overflowed entry could not be written to the store: keep it in
    /// memory instead.
    pub fn overflow_failed(&mut self, entry: FrontierEntry)
        requires
            old(self).wf(),
        ensures
            final(self).wf(),
            final(self).queue() == old(self).queue().push(entry),
            final(self).overflow() == if old(self).overflow() > 0 {
                old(self).overflow() - 1
            } else {
                0
            },
            final(self).seen() == old(self).seen(),
            final(self).pending() == old(self).pending(),
            final(self).capacity() == old(self).capacity(),
            final(self).threshold() == old(self).threshold(),
            final(self).discovered() == old(self).discovered(),
            final(self).dequeued() == old(self).dequeued(),
            final(self).is_store_backed() == old(self).is_store_backed(),
            final(self).crawl() == old(self).crawl(),
            final(self).fetches() == old(self).fetches(),
    {
        self.overflow_count = self.overflow_count.saturating_sub(1);
        self.heap.push(entry);
    }

    /// Whether the caller should refill the queue from the store before
    /// the next `pop`: the in-memory queue is below the refill threshold
    /// and overflow is waiting in the store.
    pub fn needs_refill(&self) -> (r: bool)
        ensures
            r == (self.queue().len() < self.threshold() && self.overflow() > 0
                && self.is_store_backed()),
    {
        self.heap.len() < self.refill_threshold && self.overflow_count > 0 && self.store_backed
    }

    /// How many stored entries a refill reads: half the capacity, at least
    /// one.
    pub fn refill_batch_size(&self) -> (r: usize)
        ensures
            r == if self.capacity() / 2 >= 1 {
                self.capacity() / 2
            } else {
                1
            },
    {
        let half = self.heap_capacity / 2;
        if half >= 1 {
            half
        } else {
            1
        }
    }

    /// Add entries read back from the store to the in-memory queue.
    pub fn refill(&mut self, entries: Vec<FrontierEntry>)
        requires
            old(self).wf(),
        ensures
            final(self).wf(),
            final(self).queue() == old(self).queue() + entries@,
            final(self).overflow() == if old(self).overflow() >= entries@.len() {
                old(self).overflow() - entries@.len()
            } else {
                0
            },
            final(self).seen() == old(self).seen(),
            final(self).pending() == old(self).pending(),
            final(self).capacity() == old(self).capacity(),
            final(self).threshold() == old(self).threshold(),
            final(self).discovered() == old(self).discovered(),
            final(self).dequeued() == old(self).dequeued(),
            final(self).is_store_backed() == old(self).is_store_backed(),
            final(self).crawl() == old(self).crawl(),
            final(self).fetches() == old(self).fetches(),
    {
        let count = entries.len() as u64;
        let mut entries = entries;
        self.heap.append(&mut entries);
        self.overflow_count = self.overflow_count.saturating_sub(count);
    }

    /// Position of the highest-ranked in-memory entry.
    fn top_index(&self) -> (i: usize)
        requires
            self.heap@.len() > 0,
        ensures
            is_top(self.heap@, i as int),
    {
        let mut best: usize = 0;
        let mut j: usize = 1;
        while j < self.heap.len()
            invariant
                0 <= best < j <= self.heap@.len(),
                forall|k: int| 0 <= k < best ==> outranks(self.heap@[best as int], #[trigger] self.heap@[k]),
                forall|k: int| best < k < j ==> !outranks(#[trigger] self.heap@[k], self.heap@[best as int]),
            decreases self.heap.len() - j,
        {
            let a = &self.heap[j];
            let b = &self.heap[best];
            if a.priority > b.priority || (a.priority == b.priority && a.depth < b.depth) {
                best = j;
            }
            j = j + 1;
        }
        best
    }

    /// Dequeue the highest-priority URL (for equal priority the lowest
    /// depth). Returns `None` if the in-memory queue is empty.
    pub fn pop(&mut self) -> (r: Option<FrontierEntry>)
        requires
            old(self).wf(),
            old(self).dequeued() < u64::MAX,
        ensures
            final(self).wf(),
            old(self).queue().len() == 0 ==> {
                &&& r is None
                &&& final(self).queue() == old(self).queue()
                &&& final(self).dequeued() == old(self).dequeued()
            },
            old(self).queue().len() > 0 ==> exists|i: int|
                {
                    &&& is_top(old(self).queue(), i)
                    &&& r == Some(#[trigger] old(self).queue()[i])
                    &&& final(self).queue() == old(self).queue().remove(i)
                },
            old(self).queue().len() > 0 ==> final(self).dequeued() == old(self).dequeued() + 1,
            final(self).seen() == old(self).seen(),
            final(self).pending() == old(self).pending(),
            final(self).capacity() == old(self).capacity(),
            final(self).threshold() == old(self).threshold(),
            final(self).discovered() == old(self).discovered(),
            final(self).overflow() == old(self).overflow(),
            final(self).is_store_backed() == old(self).is_store_backed(),
            final(self).crawl() == old(self).crawl(),
            final(self).fetches() == old(self).fetches(),
    {
        if self.heap.len() == 0 {
            return None;
        }
        let i = self.top_index();
        let e = self.heap.remove(i);
        self.total_dequeued = self.total_dequeued + 1;
        Some(e)
    }

    /// Number of URLs currently in memory.
    pub fn len(&self) -> (r: usize)
        ensures
            r == self.queue().len(),
    {
        self.heap.len()
    }

    /// True if both the in-memory queue and the overflow are empty.
    pub fn is_empty(&self) -> (r: bool)
        ensures
            r == (self.queue().len() == 0 && self.overflow() == 0),
    {
        self.heap.len() == 0 && self.overflow_count == 0
    }

    pub fn total_discovered(&self) -> (r: u64)
        ensures
            r == self.discovered(),
    {
        self.total_discovered
    }

    pub fn total_dequeued(&self) -> (r: u64)
        ensures
            r == self.dequeued(),
    {
        self.total_dequeued
    }

    /// URLs overflowed to the store and not yet refilled.
    pub fn overflow_count(&self) -> (r: u64)
        ensures
            r == self.overflow(),
    {
        self.overflow_count
    }

    /// Total queued URLs (in memory and overflow).
    pub fn total_queued(&self) -> (r: u64)
        requires
            self.queue().len() + self.overflow() <= u64::MAX,
        ensures
            r == self.queue().len() + self.overflow(),
    {
        self.heap.len() as u64 + self.overflow_count
    }

    /// The in-memory entries, for persisting.
    pub fn entries(&self) -> (r: &Vec<FrontierEntry>)
        ensures
            r@ == self.queue(),
    {
        &self.heap
    }

    /// The crawl whose store takes the overflow.
    pub fn crawl_id(&self) -> (r: &str)
        ensures
            r@ == self.crawl(),
    {
        self.crawl_id.as_str()
    }

    /// Whether a backing store takes overflow.
    pub fn has_store(&self) -> (r: bool)
        ensures
            r == self.is_store_backed(),
    {
        self.store_backed
    }

    /// Record the time of a fetch from a domain (the crawl counts in
    /// nanoseconds since it started).
    pub fn record_fetch(&mut self, domain: &str, now: u64)
        requires
            old(self).wf(),
        ensures
            final(self).wf(),
            final(self).fetches() == old(self).fetches().push((domain@, now)),
            final(self).queue() == old(self).queue(),
            final(self).seen() == old(self).seen(),
            final(self).pending() == old(self).pending(),
            final(self).capacity() == old(self).capacity(),
            final(self).threshold() == old(self).threshold(),
            final(self).discovered() == old(self).discovered(),
            final(self).dequeued() == old(self).dequeued(),
            final(self).overflow() == old(self).overflow(),
            final(self).is_store_backed() == old(self).is_store_backed(),
            final(self).crawl() == old(self).crawl(),
    {
        let cs = chars_of(domain);
        let d = string_of(&cs);
        self.fetch_log.push((d, now));
        assert(self.fetches() =~= old(self).fetches().push((domain@, now)));
    }

    /// The last fetch time recorded for a domain.
    pub fn last_fetch_time(&self, domain: &str) -> (r: Option<u64>)
        ensures
            r == latest_fetch(self.fetches(), domain@),
    {
        let mut i: usize = self.fetch_log.len();
        assert(self.fetches().take(i as int) =~= self.fetches());
        while i > 0
            invariant
                i <= self.fetch_log@.len(),
                latest_fetch(self.fetches(), domain@) == latest_fetch(
                    self.fetches().take(i as int),
                    domain@,
                ),
            decreases i,
        {
            let ghost t = self.fetches().take(i as int);
            assert(t.drop_last() =~= self.fetches().take(i - 1));
            if str_eq(self.fetch_log[i - 1].0.as_str(), domain) {
                return Some(self.fetch_log[i - 1].1);
            }
            i = i - 1;
        }
        None
    }
}

/// The hashes of a list of entries.
pub open spec fn hashes_of(entries: Seq<FrontierEntry>) -> Set<Seq<u8>> {
    Set::new(|h: Seq<u8>| exists|i: int| 0 <= i < entries.len() && (#[trigger] entries[i]).url_hash@ == h)
}

impl UrlFrontier {
    /// Rebuild a store-backed frontier from the entries the store holds as
    /// queued (in the order read): all their hashes count as seen, the first
    /// `heap_capacity` go to memory and the rest stay in the store as
    /// overflow.
    pub fn restore(crawl_id: &str, heap_capacity: usize, entries: Vec<FrontierEntry>) -> (r: Self)
        ensures
            r.wf(),
            r.seen() == hashes_of(entries@),
            r.queue() == entries@.take(
                if entries@.len() <= heap_capacity {
                    entries@.len() as int
                } else {
                    heap_capacity as int
                },
            ),
            r.overflow() == if entries@.len() <= heap_capacity {
                0
            } else {
                entries@.len() - heap_capacity
            },
            r.discovered() == entries@.len(),
            r.dequeued() == 0,
            r.capacity() == heap_capacity,
            r.threshold() == heap_capacity / 4,
            r.is_store_backed(),
            r.crawl() == crawl_id@,
            r.pending().len() == 0,
            r.fetches().len() == 0,
    {
        let cs = chars_of(crawl_id);
        let mut f = Self::with_db(heap_capacity, string_of(&cs));
        let mut i: usize = 0;
        while i < entries.len()
            invariant
                i <= entries@.len(),
                f.wf(),
                f.seen() == hashes_of(entries@.take(i as int)),
                f.queue().len() == 0,
                f.overflow() == 0,
                f.discovered() == 0,
                f.dequeued() == 0,
                f.capacity() == heap_capacity,
                f.threshold() == heap_capacity / 4,
                f.is_store_backed(),
                f.crawl() == crawl_id@,
                f.pending().len() == 0,
                f.fetches().len() == 0,
            decreases entries.len() - i,
        {
            let h = entries[i].url_hash;
            proof {
                assert forall|g: Seq<u8>|
                    hashes_of(entries@.take(i + 1)).contains(g) <==> (hashes_of(
                        entries@.take(i as int),
                    ).contains(g) || g == h@) by {
                    if hashes_of(entries@.take(i + 1)).contains(g) {
                        let j = choose|j: int|
                            0 <= j < i + 1 && (#[trigger] entries@.take(i + 1)[j]).url_hash@ == g;
                        if j < i {
                            assert(entries@.take(i as int)[j] == entries@.take(i + 1)[j]);
                        }
                    }
                    if hashes_of(entries@.take(i as int)).contains(g) {
                        let j = choose|j: int|
                            0 <= j < i && (#[trigger] entries@.take(i as int)[j]).url_hash@ == g;
                        assert(entries@.take(i + 1)[j] == entries@.take(i as int)[j]);
                    }
                    if g == h@ {
                        assert(entries@.take(i + 1)[i as int] == entries@[i as int]);
                    }
                }
            }
            if !f.contains(&h) {
                f.mark_seen(h);
            }
            assert(f.seen() =~= hashes_of(entries@.take(i + 1)));
            i = i + 1;
        }
        assert(entries@.take(entries@.len() as int) =~= entries@);
        let n = entries.len();
        let mut heap_part = entries;
        if n > heap_capacity {
            heap_part.truncate(heap_capacity);
            f.overflow_count = (n - heap_capacity) as u64;
        }
        f.heap = heap_part;
        f.total_discovered = n as u64;
        f
    }
}

/// The priority an entry read back from the store gets: `100 - depth`.
pub open spec fn stored_priority(depth: u32) -> int {
    100 - depth
}

/// Rebuild an entry from a stored row (url, hash bytes, depth). A hash of
/// the wrong length becomes all zeros; the priority is `100 - depth`.
pub fn entry_from_row(url: String, hash_bytes: &Vec<u8>, depth: u32) -> (r: FrontierEntry)
    requires
        depth <= i32::MAX,
    ensures
        r.url@ == url@,
        hash_bytes@.len() == 32 ==> r.url_hash@ == hash_bytes@,
        hash_bytes@.len() != 32 ==> r.url_hash@ == Seq::new(32, |k: int| 0u8),
        r.depth == depth,
        r.priority == stored_priority(depth),
        r.source_page_id is None,
{
    let mut h: [u8; 32] = [0u8; 32];
    if hash_bytes.len() == 32 {
        let mut k: usize = 0;
        while k < 32
            invariant
                k <= 32,
                hash_bytes@.len() == 32,
                h@.len() == 32,
                forall|j: int| 0 <= j < k ==> h@[j] == hash_bytes@[j],
            decreases 32 - k,
        {
            h.set(k, hash_bytes[k]);
            k = k + 1;
        }
        assert(h@ =~= hash_bytes@);
    } else {
        assert(h@ =~= Seq::new(32, |k: int| 0u8));
    }
    FrontierEntry { url, url_hash: h, depth, priority: 100 - (depth as i32), source_page_id: None }
}

// ---------------------------------------------------------------------------
// Laws
// ---------------------------------------------------------------------------

/// The entry `pop` returns is ranked at least as high as every entry left
/// in the queue.
pub proof fn law_pop_takes_the_top(q: Seq<FrontierEntry>, i: int)
    requires
        is_top(q, i),
    ensures
        forall|k: int| 0 <= k < q.remove(i).len() ==> !outranks(#[trigger] q.remove(i)[k], q[i]),
{
    assert forall|k: int| 0 <= k < q.remove(i).len() implies !outranks(
        #[trigger] q.remove(i)[k],
        q[i],
    ) by {
        if k < i {
            assert(q.remove(i)[k] == q[k]);
            assert(outranks(q[i], q[k]));
        } else {
            assert(q.remove(i)[k] == q[k + 1]);
        }
    }
}

/// Two pops in a row, with nothing pushed in between, come out in rank
/// order: the second entry never outranks the first.
pub proof fn law_consecutive_pops_in_rank_order(q: Seq<FrontierEntry>, i: int, j: int)
    requires
        is_top(q, i),
        is_top(q.remove(i), j),
    ensures
        !outranks(q.remove(i)[j], q[i]),
{
    law_pop_takes_the_top(q, i);
}

/// A hash pushed once is seen from then on, so pushing an entry with the
/// same hash again is refused.
pub proof fn law_push_then_duplicate_refused(seen: Set<Seq<u8>>, e: FrontierEntry, again: FrontierEntry)
    requires
        again.url_hash@ == e.url_hash@,
    ensures
        seen.insert(e.url_hash@).contains(again.url_hash@),
{
}

} // verus!
