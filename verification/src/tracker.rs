//! Correlates an inbound feed frame with the point at which its block is canonical,
//! and retains each produced block's ingress stamp for RPC consumers.

use vstd::prelude::*;

use crate::samples::{canonical_samples, samples_match, AppliedMessageTiming, CanonicalSamples};
use crate::tables::{
    after_frame_arrival, after_retain, arrival_timing, completed_stamp, ingress_wf,
    lemma_evict_makes_room, messages_wf, FeedMessageTiming, IngressLog, IngressStamp,
    MessageTimings, MAX_TRACKED_MESSAGES,
};
use crate::time::{is_duration, is_wall_stamp, span};

verus! {

/// What the tracker holds: the frames awaiting canonicalization, keyed by feed
/// sequence number, and the retained ingress stamps, keyed by block number.
pub struct FeedLatencyView {
    pub messages: Map<u64, FeedMessageTiming>,
    pub ingress: Map<u64, IngressStamp>,
}

/// Both tables within their bounds.
pub open spec fn view_wf(v: FeedLatencyView) -> bool {
    &&& messages_wf(v.messages)
    &&& ingress_wf(v.ingress)
}

/// The tracker after a frame arrives.
pub open spec fn after_arrival(
    v: FeedLatencyView,
    sequence_number: u64,
    received_at: u128,
    received_wall: i128,
    sequenced_at_secs: u64,
) -> FeedLatencyView {
    FeedLatencyView {
        messages: after_frame_arrival(
            v.messages,
            sequence_number,
            arrival_timing(received_at, received_wall, sequenced_at_secs),
        ),
        ingress: v.ingress,
    }
}

/// The tracker after the block of `sequence_number` became canonical as
/// `block_number`: the frame is forgotten, and its wall stamp is retained under the
/// block. An untracked sequence changes nothing.
pub open spec fn after_canonical(
    v: FeedLatencyView,
    sequence_number: u64,
    block_number: u64,
) -> FeedLatencyView {
    if v.messages.contains_key(sequence_number) {
        FeedLatencyView {
            messages: v.messages.remove(sequence_number),
            ingress: after_retain(
                v.ingress,
                block_number,
                completed_stamp(sequence_number, v.messages[sequence_number]),
            ),
        }
    } else {
        v
    }
}

/// Single-owner feed latency tracker. Each recorder is a plain state update; the
/// caller decides how samples reach its metrics.
pub struct FeedLatencyTracker {
    messages: MessageTimings,
    ingress: IngressLog,
}

impl View for FeedLatencyTracker {
    type V = FeedLatencyView;

    closed spec fn view(&self) -> FeedLatencyView {
        FeedLatencyView { messages: self.messages@, ingress: self.ingress@ }
    }
}

impl FeedLatencyTracker {
    /// Both tables within their bounds: at most `MAX_TRACKED_MESSAGES` frames and
    /// at most `MAX_INGRESS_BLOCKS` retained blocks.
    pub open spec fn wf(&self) -> bool {
        view_wf(self@)
    }

    /// An empty tracker.
    pub fn new() -> (r: Self)
        ensures
            r.wf(),
            r@.messages == Map::<u64, FeedMessageTiming>::empty(),
            r@.ingress == Map::<u64, IngressStamp>::empty(),
    {
        FeedLatencyTracker { messages: MessageTimings::new(), ingress: IngressLog::new() }
    }

    /// Records the arrival of a frame before it is parsed, with the wall clock at
    /// that same edge and the sequencer's stamp. Returns whether a tracked sample was
    /// dropped to make room.
    pub fn record_frame_arrival(
        &mut self,
        sequence_number: u64,
        received_at: u128,
        received_wall: i128,
        sequenced_at_secs: u64,
    ) -> (dropped: bool)
        requires
            old(self).wf(),
            is_duration(received_at),
            is_wall_stamp(received_wall),
        ensures
            final(self).wf(),
            final(self)@ == after_arrival(
                old(self)@,
                sequence_number,
                received_at,
                received_wall,
                sequenced_at_secs,
            ),
            dropped == (!old(self)@.messages.contains_key(sequence_number)
                && old(self)@.messages.len() == MAX_TRACKED_MESSAGES),
    {
        let dropped = self.messages.record_frame_arrival(
            sequence_number,
            received_at,
            received_wall,
            sequenced_at_secs,
        );
        proof {
            lemma_arrival_bounded(old(self)@, sequence_number, received_at, received_wall, sequenced_at_secs);
        }
        dropped
    }

    /// Records the instant after a tracked frame was decoded and is ready for the
    /// driver channel.
    pub fn record_ready_for_channel(&mut self, sequence_number: u64, ready_at: u128)
        requires
            old(self).wf(),
            is_duration(ready_at),
        ensures
            final(self).wf(),
            final(self)@.ingress == old(self)@.ingress,
            final(self)@.messages == (if old(self)@.messages.contains_key(sequence_number) {
                old(self)@.messages.insert(
                    sequence_number,
                    FeedMessageTiming {
                        ready_for_channel_at: Some(ready_at),
                        ..old(self)@.messages[sequence_number]
                    },
                )
            } else {
                old(self)@.messages
            }),
    {
        self.messages.record_ready_for_channel(sequence_number, ready_at);
    }

    /// Records the instant at which the engine driver dequeued a tracked message.
    pub fn record_driver_dequeue(&mut self, sequence_number: u64, dequeued_at: u128)
        requires
            old(self).wf(),
            is_duration(dequeued_at),
        ensures
            final(self).wf(),
            final(self)@.ingress == old(self)@.ingress,
            final(self)@.messages == (if old(self)@.messages.contains_key(sequence_number) {
                old(self)@.messages.insert(
                    sequence_number,
                    FeedMessageTiming {
                        driver_dequeued_at: Some(dequeued_at),
                        ..old(self)@.messages[sequence_number]
                    },
                )
            } else {
                old(self)@.messages
            }),
    {
        self.messages.record_driver_dequeue(sequence_number, dequeued_at);
    }

    /// The frame-to-push sample for an executed-push notification of
    /// `sequence_number` observed at `now`: the span since the frame's arrival. The
    /// entry is still pending at this point; an untracked sequence (L1-derived
    /// catch-up, replay, evicted) is a normal skip.
    pub fn record_push(&self, sequence_number: u64, now: u128) -> (sample: Option<u128>)
        requires
            self.wf(),
        ensures
            sample == (if self@.messages.contains_key(sequence_number) {
                Some(span(now, self@.messages[sequence_number].frame_received_at))
            } else {
                None
            }),
    {
        self.messages.record_push(sequence_number, now)
    }

    /// Ends the measurement of `sequence_number` once its block is canonical: the
    /// frame is forgotten, its ingress edge is retained under the produced block
    /// number, and the latency samples are returned. `None` when the frame was never
    /// tracked.
    pub fn record_canonical(&mut self, sequence_number: u64, applied: &AppliedMessageTiming) -> (r:
        Option<CanonicalSamples>)
        requires
            old(self).wf(),
            old(self)@.messages.contains_key(sequence_number) ==> applied.wf()
                && applied.outer_phases_fit(),
        ensures
            final(self).wf(),
            final(self)@ == after_canonical(old(self)@, sequence_number, applied.block_number),
            final(self)@.messages == old(self)@.messages.remove(sequence_number),
            !old(self)@.messages.contains_key(sequence_number) ==> final(self)@ == old(self)@,
            r is Some <==> old(self)@.messages.contains_key(sequence_number),
            r matches Some(samples) ==> samples_match(
                old(self)@.messages[sequence_number],
                *applied,
                samples,
            ),
    {
        match self.messages.complete(sequence_number) {
            Some(timing) => {
                self.ingress.retain_completed(sequence_number, &timing, applied.block_number);
                Some(canonical_samples(&timing, applied))
            },
            None => {
                assert(old(self)@.messages.remove(sequence_number) =~= old(self)@.messages);
                None
            },
        }
    }

    /// The retained ingress edge for `block_number`: the wall stamp at which the
    /// frame that produced the block hit the websocket, and its feed sequence number.
    /// `None` once the block has aged out of the retention window, or if its frame
    /// was never tracked.
    pub fn feed_ingress(&self, block_number: u64) -> (r: Option<(i128, u64)>)
        ensures
            r == (if self@.ingress.contains_key(block_number) {
                Some(
                    (
                        self@.ingress[block_number].received_wall,
                        self@.ingress[block_number].sequence_number,
                    ),
                )
            } else {
                None
            }),
    {
        self.ingress.feed_ingress(block_number)
    }
}

/// A frame arrival keeps the frame table within its bound and finite.
proof fn lemma_arrival_bounded(
    v: FeedLatencyView,
    sequence_number: u64,
    received_at: u128,
    received_wall: i128,
    sequenced_at_secs: u64,
)
    requires
        view_wf(v),
        is_duration(received_at),
        is_wall_stamp(received_wall),
    ensures
        view_wf(after_arrival(v, sequence_number, received_at, received_wall, sequenced_at_secs)),
{
    lemma_evict_makes_room(v.messages, MAX_TRACKED_MESSAGES as nat);
}

} // verus!
