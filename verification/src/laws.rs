//! Properties of the feed latency tracker that span several operations.

use vstd::prelude::*;

use crate::tables::{
    after_retain, completed_stamp, is_min_key, FeedMessageTiming, lemma_evict_makes_room,
    after_frame_arrival, arrival_timing, lemma_finite_nonempty_has_min, min_key, IngressStamp, MAX_INGRESS_BLOCKS, MAX_TRACKED_MESSAGES,
};
use crate::pending_env::{be_value, parent_is_arbitrum, ParentHeader};
use crate::samples::{
    apply_overhead, frame_samples_match, sequenced_to_received, AppliedMessageTiming, FrameSamples,
};
use crate::time::{is_duration, is_wall_stamp, span};
use crate::tracker::{after_arrival, after_canonical, view_wf, FeedLatencyTracker, FeedLatencyView};

verus! {

/// Serving a block's ingress gives back exactly the wall stamp recorded when its
/// frame first arrived, together with the frame's sequence number, and the frame
/// itself is forgotten once its block is canonical. (When the sequence was already
/// tracked, a duplicated frame keeps the first receipt's stamp.)
pub proof fn lemma_feed_ingress_serves_arrival_stamp(
    v: FeedLatencyView,
    sequence_number: u64,
    received_at: u128,
    received_wall: i128,
    sequenced_at_secs: u64,
    block_number: u64,
)
    requires
        view_wf(v),
        is_duration(received_at),
        is_wall_stamp(received_wall),
    ensures
        ({
            let arrived = after_arrival(
                v,
                sequence_number,
                received_at,
                received_wall,
                sequenced_at_secs,
            );
            let done = after_canonical(arrived, sequence_number, block_number);
            let first_wall: i128 = if v.messages.contains_key(sequence_number) {
                v.messages[sequence_number].frame_received_wall
            } else {
                received_wall
            };
            &&& done.ingress.contains_key(block_number)
            &&& done.ingress[block_number] == IngressStamp {
                received_wall: first_wall,
                sequence_number,
            }
            &&& !done.messages.contains_key(sequence_number)
        }),
{
}

/// The two table steps that end a measurement, `MessageTimings::complete` and then
/// `IngressLog::retain_completed` with the completed timing, leave the block's
/// ingress entry holding exactly the frame's arrival wall stamp and its sequence
/// number, whatever the window held before.
pub proof fn lemma_completed_frame_is_served(
    messages: Map<u64, FeedMessageTiming>,
    ingress: Map<u64, IngressStamp>,
    sequence_number: u64,
    block_number: u64,
)
    requires
        messages.contains_key(sequence_number),
    ensures
        ({
            let window = after_retain(
                ingress,
                block_number,
                completed_stamp(sequence_number, messages[sequence_number]),
            );
            &&& window.contains_key(block_number)
            &&& window[block_number] == (IngressStamp {
                received_wall: messages[sequence_number].frame_received_wall,
                sequence_number,
            })
        }),
{
}

/// A duplicated frame does not overwrite the first receipt of its sequence.
pub proof fn lemma_duplicate_frame_keeps_first_receipt(
    v: FeedLatencyView,
    sequence_number: u64,
    received_at: u128,
    received_wall: i128,
    sequenced_at_secs: u64,
)
    requires
        v.messages.contains_key(sequence_number),
    ensures
        after_arrival(v, sequence_number, received_at, received_wall, sequenced_at_secs) == v,
{
}

/// Neither table ever grows past its capacity, whatever frames arrive and whatever
/// blocks become canonical.
pub proof fn lemma_tables_stay_bounded(
    v: FeedLatencyView,
    sequence_number: u64,
    received_at: u128,
    received_wall: i128,
    sequenced_at_secs: u64,
    block_number: u64,
)
    requires
        view_wf(v),
        is_duration(received_at),
        is_wall_stamp(received_wall),
    ensures
        view_wf(after_arrival(v, sequence_number, received_at, received_wall, sequenced_at_secs)),
        view_wf(after_canonical(v, sequence_number, block_number)),
        after_arrival(v, sequence_number, received_at, received_wall, sequenced_at_secs).messages.len()
            <= MAX_TRACKED_MESSAGES,
        after_canonical(v, sequence_number, block_number).ingress.len() <= MAX_INGRESS_BLOCKS,
{
    lemma_evict_makes_room(v.messages, MAX_TRACKED_MESSAGES as nat);
    lemma_evict_makes_room(v.ingress, MAX_INGRESS_BLOCKS as nat);
}

/// Any tracker reached from `FeedLatencyTracker::new` through its operations (each
/// of which keeps `wf`) holds at most `MAX_TRACKED_MESSAGES` pending frames and at
/// most `MAX_INGRESS_BLOCKS` retained blocks.
pub proof fn lemma_tracker_tables_bounded(t: &FeedLatencyTracker)
    requires
        t.wf(),
    ensures
        t@.messages.len() <= MAX_TRACKED_MESSAGES,
        t@.ingress.len() <= MAX_INGRESS_BLOCKS,
        t@.messages.dom().finite(),
        t@.ingress.dom().finite(),
{
}

/// The ingress window gains a block only when a tracked frame completes, and then
/// only the block that frame produced; a frame arrival leaves the window as it is.
pub proof fn lemma_ingress_gains_only_completed_blocks(
    v: FeedLatencyView,
    sequence_number: u64,
    block_number: u64,
    received_at: u128,
    received_wall: i128,
    sequenced_at_secs: u64,
    k: u64,
)
    ensures
        after_canonical(v, sequence_number, block_number).ingress.contains_key(k)
            && !v.ingress.contains_key(k) ==> k == block_number && v.messages.contains_key(
            sequence_number,
        ),
        after_arrival(v, sequence_number, received_at, received_wall, sequenced_at_secs).ingress
            == v.ingress,
{
}

/// Retaining a block in a full window evicts exactly the oldest (smallest) block
/// and keeps every other one with its stamp; below capacity nothing is evicted.
pub proof fn lemma_retention_evicts_only_the_oldest(
    m: Map<u64, IngressStamp>,
    block_number: u64,
    stamp: IngressStamp,
)
    requires
        m.dom().finite(),
        m.len() <= MAX_INGRESS_BLOCKS,
    ensures
        after_retain(m, block_number, stamp).contains_key(block_number),
        after_retain(m, block_number, stamp)[block_number] == stamp,
        forall|k: u64|
            #![trigger m.contains_key(k)]
            m.contains_key(k) && k != block_number && (m.len() < MAX_INGRESS_BLOCKS || k
                != min_key(m)) ==> after_retain(m, block_number, stamp).contains_key(k)
                && after_retain(m, block_number, stamp)[k] == m[k],
        m.len() == MAX_INGRESS_BLOCKS ==> {
            &&& is_min_key(m, min_key(m))
            &&& (block_number != min_key(m) ==> !after_retain(
                m,
                block_number,
                stamp,
            ).contains_key(min_key(m)))
        },
        m.len() < MAX_INGRESS_BLOCKS ==> after_retain(m, block_number, stamp) == m.insert(
            block_number,
            stamp,
        ),
{
    if m.len() == MAX_INGRESS_BLOCKS {
        lemma_finite_nonempty_has_min(m, m.dom().choose());
    }
}

/// A tracked frame's wall stamp is what its block's ingress entry holds once the
/// block is canonical, however many phases were stamped in between.
pub proof fn lemma_canonical_retains_the_tracked_stamp(
    v: FeedLatencyView,
    sequence_number: u64,
    block_number: u64,
)
    requires
        v.messages.contains_key(sequence_number),
    ensures
        after_canonical(v, sequence_number, block_number).ingress.contains_key(block_number),
        after_canonical(v, sequence_number, block_number).ingress[block_number] == (IngressStamp {
            received_wall: v.messages[sequence_number].frame_received_wall,
            sequence_number,
        }),
        !after_canonical(v, sequence_number, block_number).messages.contains_key(sequence_number),
{
}

/// The ingress window after retaining `blocks[i]` with `stamps[i]`, in order.
pub open spec fn retain_in_order(
    m: Map<u64, IngressStamp>,
    blocks: Seq<u64>,
    stamps: Seq<IngressStamp>,
) -> Map<u64, IngressStamp>
    decreases blocks.len(),
{
    if blocks.len() == 0 {
        m
    } else {
        after_retain(
            retain_in_order(m, blocks.drop_last(), stamps),
            blocks.last(),
            stamps[blocks.len() - 1],
        )
    }
}

/// When blocks are produced in increasing order, newer than anything already in
/// the window, the window serves each of the latest `MAX_INGRESS_BLOCKS` blocks with
/// the stamp it was retained with, and never holds more than that many blocks.
pub proof fn lemma_window_serves_the_latest_blocks(
    m: Map<u64, IngressStamp>,
    blocks: Seq<u64>,
    stamps: Seq<IngressStamp>,
)
    requires
        m.dom().finite(),
        m.len() <= MAX_INGRESS_BLOCKS,
        stamps.len() == blocks.len(),
        forall|i: int, j: int| 0 <= i < j < blocks.len() ==> blocks[i] < blocks[j],
        forall|k: u64, i: int| m.contains_key(k) && 0 <= i < blocks.len() ==> k < blocks[i],
    ensures
        retain_in_order(m, blocks, stamps).len() <= MAX_INGRESS_BLOCKS,
        forall|i: int|
            0 <= i < blocks.len() && blocks.len() - i <= MAX_INGRESS_BLOCKS ==> {
                &&& retain_in_order(m, blocks, stamps).contains_key(#[trigger] blocks[i])
                &&& retain_in_order(m, blocks, stamps)[blocks[i]] == stamps[i]
            },
{
    lemma_window_invariant(m, blocks, stamps);
}

proof fn lemma_window_invariant(
    m: Map<u64, IngressStamp>,
    blocks: Seq<u64>,
    stamps: Seq<IngressStamp>,
)
    requires
        m.dom().finite(),
        m.len() <= MAX_INGRESS_BLOCKS,
        stamps.len() >= blocks.len(),
        forall|i: int, j: int| 0 <= i < j < blocks.len() ==> blocks[i] < blocks[j],
        forall|k: u64, i: int| m.contains_key(k) && 0 <= i < blocks.len() ==> k < blocks[i],
    ensures
        retain_in_order(m, blocks, stamps).dom().finite(),
        retain_in_order(m, blocks, stamps).len() <= MAX_INGRESS_BLOCKS,
        forall|k: u64|
            #[trigger] retain_in_order(m, blocks, stamps).contains_key(k) ==> m.contains_key(k)
                || blocks.contains(k),
        forall|i: int|
            0 <= i < blocks.len() && blocks.len() - i <= MAX_INGRESS_BLOCKS ==> {
                &&& retain_in_order(m, blocks, stamps).contains_key(#[trigger] blocks[i])
                &&& retain_in_order(m, blocks, stamps)[blocks[i]] == stamps[i]
            },
    decreases blocks.len(),
{
    if blocks.len() == 0 {
        return;
    }
    let n: int = blocks.len() as int;
    let prefix = blocks.drop_last();
    lemma_window_invariant(m, prefix, stamps);
    let r = retain_in_order(m, prefix, stamps);
    let b: u64 = blocks.last();
    let s = stamps[n - 1];
    assert(retain_in_order(m, blocks, stamps) == after_retain(r, b, s));
    lemma_evict_makes_room(r, MAX_INGRESS_BLOCKS as nat);
    assert forall|k: u64| #[trigger] prefix.contains(k) implies blocks.contains(k) by {
        let j: int = choose|j: int| 0 <= j < prefix.len() && prefix[j] == k;
        assert(blocks[j] == k);
    }
    assert(blocks.contains(b)) by {
        assert(blocks[n - 1] == b);
    }
    if r.len() == MAX_INGRESS_BLOCKS {
        lemma_finite_nonempty_has_min(r, r.dom().choose());
        let mk: u64 = min_key(r);
        assert forall|i0: int| 0 <= i0 < n - 1 && n - i0 <= MAX_INGRESS_BLOCKS implies blocks[i0]
            != mk by {
            if blocks[i0] == mk {
                let sub = prefix.subrange(i0, n - 1);
                assert forall|k: u64| r.dom().contains(k) implies sub.to_set().contains(k) by {
                    assert(r.contains_key(k));
                    assert(mk <= k);
                    if m.contains_key(k) {
                        assert(k < blocks[i0]);
                    } else {
                        assert(prefix.contains(k));
                        let j: int = choose|j: int| 0 <= j < prefix.len() && prefix[j] == k;
                        if j < i0 {
                            assert(blocks[j] < blocks[i0]);
                        }
                        assert(sub[j - i0] == k);
                        assert(sub.contains(k));
                    }
                }
                sub.lemma_cardinality_of_set();
                vstd::set_lib::lemma_len_subset(r.dom(), sub.to_set());
            }
        }
    }
    assert forall|i: int| 0 <= i < n && n - i <= MAX_INGRESS_BLOCKS implies {
        &&& retain_in_order(m, blocks, stamps).contains_key(#[trigger] blocks[i])
        &&& retain_in_order(m, blocks, stamps)[blocks[i]] == stamps[i]
    } by {
        if i < n - 1 {
            assert(prefix[i] == blocks[i]);
            assert(blocks[i] < b);
        }
    }
}

/// Completing one sequence forgets that frame only: every other pending frame stays
/// pending with its timing unchanged, and completing a sequence that is not pending
/// (an L1-derived catch-up block, a replay, an evicted frame) changes nothing at all.
pub proof fn lemma_completion_forgets_only_its_own_frame(
    v: FeedLatencyView,
    sequence_number: u64,
    block_number: u64,
)
    ensures
        after_canonical(v, sequence_number, block_number).messages == v.messages.remove(
            sequence_number,
        ),
        forall|k: u64|
            k != sequence_number && #[trigger] v.messages.contains_key(k) ==> after_canonical(
                v,
                sequence_number,
                block_number,
            ).messages.contains_key(k) && after_canonical(v, sequence_number, block_number).messages[k]
                == v.messages[k],
        !v.messages.contains_key(sequence_number) ==> after_canonical(
            v,
            sequence_number,
            block_number,
        ) == v,
{
    if !v.messages.contains_key(sequence_number) {
        assert(v.messages.remove(sequence_number) =~= v.messages);
    }
}

/// The sequencer-to-node offset is signed, never clamped: for a stamped message and
/// a post-1970 clock it is exactly the wall stamp minus the stamp in nanoseconds
/// (negative when this node's clock trails the sequencer's), and sequenced-to-state
/// is that offset plus the frame-to-canonical span.
pub proof fn lemma_sequencer_offset_is_signed(
    timing: FeedMessageTiming,
    applied: AppliedMessageTiming,
    r: FrameSamples,
)
    requires
        frame_samples_match(timing, applied, r),
        timing.sequenced_at_secs != 0,
        timing.frame_received_wall >= 0,
    ensures
        r.sequenced_to_received matches Some(x) && x == timing.frame_received_wall
            - timing.sequenced_at_secs * 1_000_000_000,
        r.sequenced_to_state matches Some(y) && y == timing.frame_received_wall
            - timing.sequenced_at_secs * 1_000_000_000 + (if applied.completed_at
            >= timing.frame_received_at {
            applied.completed_at - timing.frame_received_at
        } else {
            0
        }),
        timing.frame_received_wall < timing.sequenced_at_secs * 1_000_000_000 ==> (
        r.sequenced_to_received matches Some(x) && x < 0),
{
}

/// Any parent with decodable Arbitrum header parts and a non-zero ArbOS format
/// version counts as Arbitrum, whatever the version: no upper bound applies.
pub proof fn lemma_every_nonzero_arbos_version_is_arbitrum(parent: ParentHeader)
    requires
        parent.mix_hash is Some,
        parent.extra_data@.len() == 32,
        be_value(parent.mix_hash.unwrap()@.subrange(16, 24)) > 0,
    ensures
        parent_is_arbitrum(parent),
{
}

/// The apply overhead is the total minus the three exclusive outer phases (payload
/// attributes, payload job, engine handoff), clamped at zero, so it stays additive
/// with the end-to-end apply duration.
pub proof fn lemma_apply_overhead_subtracts_the_outer_phases(a: AppliedMessageTiming)
    ensures
        apply_overhead(a) + a.payload_attributes + a.payload_job + a.engine_handoff == a.total
            || (apply_overhead(a) == 0 && a.total < a.payload_attributes + a.payload_job
            + a.engine_handoff),
        apply_overhead(a) >= 0,
{
}

/// The apply overhead does not depend on the phases nested inside the outer ones
/// (engine insert, forkchoice, canonicalization wait, the block-production phases):
/// two timings that agree on the total and the three outer phases have the same
/// overhead.
pub proof fn lemma_apply_overhead_ignores_nested_phases(
    a: AppliedMessageTiming,
    b: AppliedMessageTiming,
)
    requires
        a.total == b.total,
        a.payload_attributes == b.payload_attributes,
        a.payload_job == b.payload_job,
        a.engine_handoff == b.engine_handoff,
    ensures
        apply_overhead(a) == apply_overhead(b),
{
}

/// A span is the later instant minus the earlier one, or zero when the later one
/// reads earlier: it never goes negative and never exceeds the later instant.
pub proof fn lemma_span_is_the_clamped_difference(later: u128, earlier: u128)
    ensures
        later >= earlier ==> span(later, earlier) + earlier == later,
        later < earlier ==> span(later, earlier) == 0,
{
}

/// The sequencer-to-node offset exists exactly for a post-1970 local clock and is
/// the wall stamp minus the sequencer's whole-second stamp in nanoseconds.
pub proof fn lemma_sequenced_to_received_is_wall_minus_stamp(received_wall: i128, stamp: u64)
    ensures
        received_wall >= 0 ==> sequenced_to_received(received_wall, stamp) == Some(
            received_wall - stamp * 1_000_000_000,
        ),
        received_wall < 0 ==> sequenced_to_received(received_wall, stamp) is None,
{
}

/// Every span of a completed frame is the clamped difference of the two instants
/// it joins, present exactly when both instants were recorded; an unstamped message
/// has no sequencer spans.
pub proof fn lemma_frame_spans_join_their_instants(
    timing: FeedMessageTiming,
    applied: AppliedMessageTiming,
    r: FrameSamples,
)
    requires
        frame_samples_match(timing, applied, r),
    ensures
        r.frame_to_canonical == (if applied.completed_at >= timing.frame_received_at {
            applied.completed_at - timing.frame_received_at
        } else {
            0
        }),
        timing.ready_for_channel_at is None ==> r.frame_decode is None,
        timing.ready_for_channel_at matches Some(ready) ==> r.frame_decode == Some(
            (if ready >= timing.frame_received_at {
                ready - timing.frame_received_at
            } else {
                0
            }) as u128,
        ),
        (timing.ready_for_channel_at is None || timing.driver_dequeued_at is None) ==> (
        r.channel_wait is None && r.sequencing_wait is None),
        timing.ready_for_channel_at is Some && timing.driver_dequeued_at is Some ==> {
            let ready = timing.ready_for_channel_at.unwrap();
            let dequeued = timing.driver_dequeued_at.unwrap();
            &&& r.channel_wait == Some(
                (if dequeued >= ready {
                    dequeued - ready
                } else {
                    0
                }) as u128,
            )
            &&& r.sequencing_wait == Some(
                (if applied.started_at >= dequeued {
                    applied.started_at - dequeued
                } else {
                    0
                }) as u128,
            )
        },
        timing.sequenced_at_secs == 0 ==> r.sequenced_to_received is None
            && r.sequenced_to_state is None,
        timing.frame_received_wall < 0 ==> r.sequenced_to_received is None
            && r.sequenced_to_state is None,
{
}

/// A parent counts as Arbitrum exactly when its `mix_hash` is present, its
/// `extra_data` is 32 bytes and the ArbOS format version word is non-zero.
pub proof fn lemma_arbitrum_parent_exactly(parent: ParentHeader)
    ensures
        parent_is_arbitrum(parent) <==> (parent.mix_hash is Some && parent.extra_data@.len() == 32
            && be_value(parent.mix_hash.unwrap()@.subrange(16, 24)) > 0),
{
}

/// A new frame is always tracked afterwards with its arrival timing; every pending
/// frame other than the oldest stays with its timing, and the oldest one leaves only
/// when the table was full.
pub proof fn lemma_frame_arrival_evicts_only_the_oldest(
    m: Map<u64, FeedMessageTiming>,
    sequence_number: u64,
    received_at: u128,
    received_wall: i128,
    sequenced_at_secs: u64,
)
    requires
        m.dom().finite(),
        m.len() <= MAX_TRACKED_MESSAGES,
        !m.contains_key(sequence_number),
    ensures
        ({
            let t = arrival_timing(received_at, received_wall, sequenced_at_secs);
            let after = after_frame_arrival(m, sequence_number, t);
            &&& after.contains_key(sequence_number)
            &&& after[sequence_number].frame_received_at == received_at
            &&& after[sequence_number].frame_received_wall == received_wall
            &&& after[sequence_number].sequenced_at_secs == sequenced_at_secs
            &&& after[sequence_number].ready_for_channel_at is None
            &&& after[sequence_number].driver_dequeued_at is None
            &&& forall|k: u64|
                #![trigger m.contains_key(k)]
                m.contains_key(k) && (m.len() < MAX_TRACKED_MESSAGES || !is_min_key(m, k))
                    ==> after.contains_key(k) && after[k] == m[k]
            &&& (m.len() == MAX_TRACKED_MESSAGES ==> after.len() == m.len())
        }),
{
    if m.len() == MAX_TRACKED_MESSAGES {
        lemma_finite_nonempty_has_min(m, m.dom().choose());
        let mk: u64 = min_key(m);
        assert forall|k: u64| #![trigger m.contains_key(k)] m.contains_key(k) && !is_min_key(m, k)
            implies k != mk by {
            if k == mk {
                assert(is_min_key(m, k));
            }
        }
        assert(m.remove(mk).len() == m.len() - 1);
    }
}

} // verus!
