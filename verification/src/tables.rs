//! The two bounded tables behind the feed latency tracker: frame timings keyed
//! by feed sequence number (forgotten on completion), and ingress stamps keyed by
//! produced block number (retained for a fixed window of blocks).

use std::collections::BTreeMap;
use vstd::prelude::*;

use crate::time::{is_duration, is_wall_stamp, saturating_span, span};

verus! {

/// Upper bound on frames awaiting canonicalization.
pub const MAX_TRACKED_MESSAGES: usize = 16_384;

/// Retention window for per-block ingress stamps served over RPC: ~27 minutes at
/// ~10 blocks/s.
pub const MAX_INGRESS_BLOCKS: usize = 16_384;

/// `k` is present in `m` and no present key is smaller.
pub open spec fn is_min_key<V>(m: Map<u64, V>, k: u64) -> bool {
    &&& m.contains_key(k)
    &&& forall|j: u64| #[trigger] m.contains_key(j) ==> k <= j
}

/// The smallest key of a non-empty map (the oldest sequence or block).
pub open spec fn min_key<V>(m: Map<u64, V>) -> u64 {
    choose|k: u64| is_min_key(m, k)
}

/// A key that is minimal is the minimum.
pub proof fn lemma_min_key_unique<V>(m: Map<u64, V>, k: u64)
    requires
        is_min_key(m, k),
    ensures
        min_key(m) == k,
{
    let c: u64 = min_key(m);
    assert(is_min_key(m, c));
    assert(c <= k && k <= c);
}

/// `m` with its oldest entry dropped when it already holds `cap` entries.
pub open spec fn evict_oldest_if_full<V>(m: Map<u64, V>, cap: nat) -> Map<u64, V> {
    if m.len() == cap {
        m.remove(min_key(m))
    } else {
        m
    }
}

/// Eviction leaves room for one more entry and keeps only entries that were there.
pub proof fn lemma_evict_makes_room<V>(m: Map<u64, V>, cap: nat)
    requires
        m.len() <= cap,
        cap > 0,
        m.dom().finite(),
    ensures
        evict_oldest_if_full(m, cap).len() < cap,
        evict_oldest_if_full(m, cap).dom().finite(),
        evict_oldest_if_full(m, cap) <= m,
{
    if m.len() == cap {
        let w: u64 = m.dom().choose();
        lemma_finite_nonempty_has_min(m, w);
        assert(m.remove(min_key(m)).len() == m.len() - 1);
    }
}

/// Every finite map of `u64` keys with some key has a minimal key.
pub proof fn lemma_finite_nonempty_has_min<V>(m: Map<u64, V>, w: u64)
    requires
        m.dom().finite(),
        m.contains_key(w),
    ensures
        is_min_key(m, min_key(m)),
    decreases m.len(),
{
    if exists|j: u64| m.contains_key(j) && j < w {
        let j: u64 = choose|j: u64| m.contains_key(j) && j < w;
        let smaller = m.remove(w);
        lemma_finite_nonempty_has_min(smaller, j);
        let k: u64 = min_key(smaller);
        assert(is_min_key(m, k));
    } else {
        assert(is_min_key(m, w));
    }
}

/// `BTreeMap::pop_first` on `u64` keys. As std documents it, the call removes and
/// returns the entry with the smallest key, and returns `None`, changing nothing,
/// when the map is empty.
#[verifier::external_body]
fn btree_pop_first<V>(m: &mut BTreeMap<u64, V>) -> (r: Option<(u64, V)>)
    ensures
        match r {
            Some((k, v)) => {
                &&& is_min_key(old(m)@, k)
                &&& v == old(m)@[k]
                &&& final(m)@ == old(m)@.remove(k)
            },
            None => {
                &&& old(m)@ == Map::<u64, V>::empty()
                &&& final(m)@ == old(m)@
            },
        },
{
    m.pop_first()
}

/// Drops the oldest entry of `m` when it holds `cap` entries.
fn evict_oldest_at_capacity<V>(m: &mut BTreeMap<u64, V>, cap: usize) -> (evicted: bool)
    requires
        cap > 0,
    ensures
        final(m)@ == evict_oldest_if_full(old(m)@, cap as nat),
        evicted == (old(m)@.len() == cap),
{
    if m.len() == cap {
        let popped = btree_pop_first(m);
        match popped {
            Some((k, _)) => {
                proof {
                    lemma_min_key_unique(old(m)@, k);
                }
            },
            None => {
                assert(old(m)@.len() == 0);
            },
        }
        true
    } else {
        false
    }
}

/// Timing of one tracked feed frame. Instants are monotonic nanoseconds since the
/// tracker's origin; `frame_received_wall` is signed nanoseconds since the Unix
/// epoch, taken at the same edge as `frame_received_at`.
#[derive(Clone, Copy, Debug)]
pub struct FeedMessageTiming {
    pub frame_received_at: u128,
    pub frame_received_wall: i128,
    /// Seconds-granularity timestamp the sequencer stamped on this message.
    pub sequenced_at_secs: u64,
    pub ready_for_channel_at: Option<u128>,
    pub driver_dequeued_at: Option<u128>,
}

impl FeedMessageTiming {
    /// Every instant and stamp is one that `Instant` and `SystemTime` can hold.
    pub open spec fn wf(self) -> bool {
        &&& is_duration(self.frame_received_at)
        &&& is_wall_stamp(self.frame_received_wall)
        &&& (self.ready_for_channel_at matches Some(t) ==> is_duration(t))
        &&& (self.driver_dequeued_at matches Some(t) ==> is_duration(t))
    }
}

/// The timing a frame starts with when it first arrives.
pub open spec fn arrival_timing(
    received_at: u128,
    received_wall: i128,
    sequenced_at_secs: u64,
) -> FeedMessageTiming {
    FeedMessageTiming {
        frame_received_at: received_at,
        frame_received_wall: received_wall,
        sequenced_at_secs,
        ready_for_channel_at: None,
        driver_dequeued_at: None,
    }
}

/// Frame table after a frame arrives: the first receipt of a sequence is kept;
/// otherwise the oldest sequence is evicted at capacity and the new one inserted.
pub open spec fn after_frame_arrival(
    m: Map<u64, FeedMessageTiming>,
    sequence_number: u64,
    timing: FeedMessageTiming,
) -> Map<u64, FeedMessageTiming> {
    if m.contains_key(sequence_number) {
        m
    } else {
        evict_oldest_if_full(m, MAX_TRACKED_MESSAGES as nat).insert(sequence_number, timing)
    }
}

/// Frame timings keyed by feed sequence number.
pub struct MessageTimings {
    entries: BTreeMap<u64, FeedMessageTiming>,
}

impl View for MessageTimings {
    type V = Map<u64, FeedMessageTiming>;

    closed spec fn view(&self) -> Map<u64, FeedMessageTiming> {
        self.entries@
    }
}

/// A frame table holds finitely many, and at most `MAX_TRACKED_MESSAGES`,
/// well-formed timings.
pub open spec fn messages_wf(m: Map<u64, FeedMessageTiming>) -> bool {
    &&& m.dom().finite()
    &&& m.len() <= MAX_TRACKED_MESSAGES
    &&& forall|k: u64| #[trigger] m.contains_key(k) ==> m[k].wf()
}

impl MessageTimings {
    /// The table is within its bound and holds well-formed timings.
    pub open spec fn wf(&self) -> bool {
        messages_wf(self@)
    }

    /// An empty frame table.
    pub fn new() -> (r: Self)
        ensures
            r.wf(),
            r@ == Map::<u64, FeedMessageTiming>::empty(),
    {
        MessageTimings { entries: BTreeMap::new() }
    }

    /// Starts timing `sequence_number` at its frame's arrival. A duplicated frame
    /// keeps the first receipt. At capacity the oldest sequence is evicted, and the
    /// result says so: that sample is lost.
    pub fn record_frame_arrival(
        &mut self,
        sequence_number: u64,
        received_at: u128,
        received_wall: i128,
        sequenced_at_secs: u64,
    ) -> (evicted: bool)
        requires
            old(self).wf(),
            is_duration(received_at),
            is_wall_stamp(received_wall),
        ensures
            final(self).wf(),
            final(self)@ == after_frame_arrival(
                old(self)@,
                sequence_number,
                arrival_timing(received_at, received_wall, sequenced_at_secs),
            ),
            evicted == (!old(self)@.contains_key(sequence_number) && old(self)@.len()
                == MAX_TRACKED_MESSAGES),
            old(self)@.contains_key(sequence_number) ==> final(self)@ == old(self)@,
    {
        if self.entries.contains_key(&sequence_number) {
            return false;
        }
        let evicted = evict_oldest_at_capacity(&mut self.entries, MAX_TRACKED_MESSAGES);
        proof {
            lemma_evict_makes_room(old(self)@, MAX_TRACKED_MESSAGES as nat);
        }
        self.entries.insert(
            sequence_number,
            FeedMessageTiming {
                frame_received_at: received_at,
                frame_received_wall: received_wall,
                sequenced_at_secs,
                ready_for_channel_at: None,
                driver_dequeued_at: None,
            },
        );
        evicted
    }

    /// Stamps the instant at which the frame of a tracked sequence was decoded and
    /// became ready for the driver channel. An untracked sequence changes nothing.
    pub fn record_ready_for_channel(&mut self, sequence_number: u64, ready_at: u128)
        requires
            old(self).wf(),
            is_duration(ready_at),
        ensures
            final(self).wf(),
            final(self)@ == (if old(self)@.contains_key(sequence_number) {
                old(self)@.insert(
                    sequence_number,
                    FeedMessageTiming {
                        ready_for_channel_at: Some(ready_at),
                        ..old(self)@[sequence_number]
                    },
                )
            } else {
                old(self)@
            }),
    {
        match self.entries.get(&sequence_number) {
            Some(timing) => {
                let mut updated = *timing;
                updated.ready_for_channel_at = Some(ready_at);
                self.entries.insert(sequence_number, updated);
            },
            None => {},
        }
    }

    /// Stamps the instant at which the engine driver dequeued a tracked sequence.
    /// An untracked sequence changes nothing.
    pub fn record_driver_dequeue(&mut self, sequence_number: u64, dequeued_at: u128)
        requires
            old(self).wf(),
            is_duration(dequeued_at),
        ensures
            final(self).wf(),
            final(self)@ == (if old(self)@.contains_key(sequence_number) {
                old(self)@.insert(
                    sequence_number,
                    FeedMessageTiming {
                        driver_dequeued_at: Some(dequeued_at),
                        ..old(self)@[sequence_number]
                    },
                )
            } else {
                old(self)@
            }),
    {
        match self.entries.get(&sequence_number) {
            Some(timing) => {
                let mut updated = *timing;
                updated.driver_dequeued_at = Some(dequeued_at);
                self.entries.insert(sequence_number, updated);
            },
            None => {},
        }
    }

    /// The frame-to-push sample of `sequence_number` observed at `now`: the span
    /// since its frame arrived, or `None` when the sequence is not tracked.
    pub fn record_push(&self, sequence_number: u64, now: u128) -> (sample: Option<u128>)
        requires
            self.wf(),
        ensures
            sample == (if self@.contains_key(sequence_number) {
                Some(span(now, self@[sequence_number].frame_received_at))
            } else {
                None
            }),
    {
        match self.entries.get(&sequence_number) {
            Some(timing) => Some(saturating_span(now, timing.frame_received_at)),
            None => None,
        }
    }

    /// Ends the measurement of a sequence: its timing is removed and handed back,
    /// or `None` when it was not tracked.
    pub fn complete(&mut self, sequence_number: u64) -> (r: Option<FeedMessageTiming>)
        requires
            old(self).wf(),
        ensures
            final(self).wf(),
            final(self)@ == old(self)@.remove(sequence_number),
            r == (if old(self)@.contains_key(sequence_number) {
                Some(old(self)@[sequence_number])
            } else {
                None
            }),
            r matches Some(t) ==> t.wf(),
    {
        self.entries.remove(&sequence_number)
    }
}

/// The ingress edge of one tracked frame, reduced to what a cross-process join
/// needs: the wall-clock stamp and the feed sequence number.
#[derive(Clone, Copy, Debug)]
pub struct IngressStamp {
    pub received_wall: i128,
    pub sequence_number: u64,
}

/// An ingress window holds finitely many, and at most `MAX_INGRESS_BLOCKS`, blocks.
pub open spec fn ingress_wf(m: Map<u64, IngressStamp>) -> bool {
    &&& m.dom().finite()
    &&& m.len() <= MAX_INGRESS_BLOCKS
}

/// The stamp retained for a completed frame: its wall stamp and sequence number.
pub open spec fn completed_stamp(sequence_number: u64, timing: FeedMessageTiming) -> IngressStamp {
    IngressStamp { received_wall: timing.frame_received_wall, sequence_number }
}

/// Ingress table after `block_number` is retained with `stamp`: at capacity the
/// oldest block leaves the window first.
pub open spec fn after_retain(
    m: Map<u64, IngressStamp>,
    block_number: u64,
    stamp: IngressStamp,
) -> Map<u64, IngressStamp> {
    evict_oldest_if_full(m, MAX_INGRESS_BLOCKS as nat).insert(block_number, stamp)
}

/// Ingress stamps retained past canonicalization, keyed by produced block number.
pub struct IngressLog {
    by_block: BTreeMap<u64, IngressStamp>,
}

impl View for IngressLog {
    type V = Map<u64, IngressStamp>;

    closed spec fn view(&self) -> Map<u64, IngressStamp> {
        self.by_block@
    }
}

impl IngressLog {
    /// The window holds at most `MAX_INGRESS_BLOCKS` blocks.
    pub open spec fn wf(&self) -> bool {
        ingress_wf(self@)
    }

    /// An empty ingress window.
    pub fn new() -> (r: Self)
        ensures
            r.wf(),
            r@ == Map::<u64, IngressStamp>::empty(),
    {
        IngressLog { by_block: BTreeMap::new() }
    }

    /// Retains the ingress edge of a completed frame under the block it produced:
    /// the frame's wall stamp and its sequence number. At capacity the oldest block
    /// is evicted first; that is the retention window at work, not a lost sample.
    pub fn retain_completed(
        &mut self,
        sequence_number: u64,
        timing: &FeedMessageTiming,
        block_number: u64,
    )
        requires
            old(self).wf(),
        ensures
            final(self).wf(),
            final(self)@ == after_retain(
                old(self)@,
                block_number,
                completed_stamp(sequence_number, *timing),
            ),
    {
        evict_oldest_at_capacity(&mut self.by_block, MAX_INGRESS_BLOCKS);
        proof {
            lemma_evict_makes_room(old(self)@, MAX_INGRESS_BLOCKS as nat);
        }
        self.by_block.insert(
            block_number,
            IngressStamp { received_wall: timing.frame_received_wall, sequence_number },
        );
    }

    /// The retained ingress edge of `block_number`: the wall stamp at which its frame
    /// hit the websocket and its feed sequence number; `None` once the block has
    /// aged out of the window or when its frame was never tracked.
    pub fn feed_ingress(&self, block_number: u64) -> (r: Option<(i128, u64)>)
        ensures
            r == (if self@.contains_key(block_number) {
                Some((self@[block_number].received_wall, self@[block_number].sequence_number))
            } else {
                None
            }),
    {
        match self.by_block.get(&block_number) {
            Some(stamp) => Some((stamp.received_wall, stamp.sequence_number)),
            None => None,
        }
    }
}

} // verus!
