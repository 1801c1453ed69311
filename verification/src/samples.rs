//! Latency samples derived from one tracked frame when its block becomes canonical.
//! All spans are integer nanoseconds; converting them to seconds for a histogram is
//! left to the caller.

use vstd::prelude::*;

use crate::tables::FeedMessageTiming;
use crate::time::{is_duration, is_wall_stamp, saturating_span, span, DURATION_MAX_NANOS, NANOS_PER_SEC};

verus! {

/// Timing of one applied feed message, as the engine reports it once its block is
/// canonical. Instants are monotonic nanoseconds since the tracker's origin; every
/// other field except the block number is a duration in nanoseconds.
#[derive(Clone, Copy, Debug)]
pub struct AppliedMessageTiming {
    pub block_number: u64,
    pub started_at: u128,
    pub completed_at: u128,
    pub payload_attributes: u128,
    pub payload_job: u128,
    pub payload_job_launch: u128,
    pub payload_job_resolve: u128,
    pub payload_job_overhead: u128,
    pub block_production: u128,
    pub block_production_unattributed: u128,
    pub block_parent_state: u128,
    pub block_message_preparation: u128,
    pub block_state_setup: u128,
    pub block_execution: u128,
    pub block_execution_setup: u128,
    pub block_start_block_transaction_construction: u128,
    pub block_start_block_transaction: u128,
    pub block_derived_transactions: u128,
    pub block_derived_transaction_execution: u128,
    pub block_derived_retry_scheduling: u128,
    pub block_derived_transactions_unattributed: u128,
    pub block_execution_unattributed: u128,
    pub block_finish: u128,
    pub block_finish_executor: u128,
    pub block_finish_hashed_state: u128,
    pub block_finish_state_root: u128,
    pub block_finish_state_root_task_wait: Option<u128>,
    pub block_finish_state_root_task_succeeded: Option<bool>,
    pub block_finish_assembly: u128,
    pub block_finish_unattributed: u128,
    pub engine_handoff: u128,
    pub engine_insert: u128,
    pub engine_forkchoice: u128,
    pub canonicalization_wait: u128,
    pub total: u128,
}

impl AppliedMessageTiming {
    /// The exclusive outer phases of the apply path: payload attributes, the payload
    /// job (which nests builder execution) and the engine handoff (which nests
    /// forkchoice and canonical observation).
    pub open spec fn named_phases(self) -> int {
        self.payload_attributes + self.payload_job + self.engine_handoff
    }

    /// The instants read here are ones `Instant` can hold (nanoseconds since the
    /// tracker's origin fit a `Duration`).
    pub open spec fn wf(self) -> bool {
        &&& is_duration(self.started_at)
        &&& is_duration(self.completed_at)
    }

    /// The named outer phases add up to a `Duration` without overflow; adding them
    /// as `Duration`s panics otherwise.
    pub open spec fn outer_phases_fit(self) -> bool {
        self.named_phases() <= DURATION_MAX_NANOS
    }

    /// Executable `outer_phases_fit`.
    pub fn outer_phases_fit_exec(&self) -> (r: bool)
        ensures
            r == self.outer_phases_fit(),
    {
        self.payload_attributes <= DURATION_MAX_NANOS && self.payload_job <= DURATION_MAX_NANOS
            - self.payload_attributes && self.engine_handoff <= DURATION_MAX_NANOS
            - self.payload_attributes - self.payload_job
    }
}

/// The sequencer-to-node span: signed nanoseconds from the sequencer's whole-second
/// stamp to the local wall-clock ingress. Negative when this node's clock trails the
/// sequencer's; absent when the local clock reads before 1970.
pub open spec fn sequenced_to_received(received_wall: i128, sequenced_at_secs: u64) -> Option<int> {
    if received_wall >= 0 {
        Some(received_wall - sequenced_at_secs * NANOS_PER_SEC)
    } else {
        None
    }
}

/// Executable `sequenced_to_received`, in nanoseconds.
pub fn sequenced_to_received_nanos(received_wall: i128, sequenced_at_secs: u64) -> (r: Option<i128>)
    requires
        is_wall_stamp(received_wall),
    ensures
        r matches Some(x) ==> sequenced_to_received(received_wall, sequenced_at_secs) == Some(
            x as int,
        ),
        r is None ==> sequenced_to_received(received_wall, sequenced_at_secs) is None,
{
    if received_wall < 0 {
        return None;
    }
    let stamp: i128 = sequenced_at_secs as i128;
    assert(stamp * 1_000_000_000 <= 18_446_744_073_709_551_615i128 * 1_000_000_000) by (
    nonlinear_arith)
        requires
            0 <= stamp <= 18_446_744_073_709_551_615i128,
    ;
    Some(received_wall - stamp * 1_000_000_000)
}

/// The spans of one completed frame. Each span is in nanoseconds.
#[derive(Clone, Copy, Debug)]
pub struct FrameSamples {
    /// Frame received to canonical in-memory state (both edges monotonic, exact).
    pub frame_to_canonical: u128,
    /// Sequencer stamp to frame received; absent for an unstamped message or a
    /// pre-1970 local clock.
    pub sequenced_to_received: Option<i128>,
    /// Sequencer stamp to canonical state: `sequenced_to_received + frame_to_canonical`.
    pub sequenced_to_state: Option<i128>,
    /// Frame received to ready for the driver channel.
    pub frame_decode: Option<u128>,
    /// Ready for the channel to dequeued by the driver.
    pub channel_wait: Option<u128>,
    /// Dequeued by the driver to the start of in-order application.
    pub sequencing_wait: Option<u128>,
}

/// The samples of one completed measurement: the frame's spans and the apply-path
/// time not covered by the named outer phases, in nanoseconds.
#[derive(Clone, Copy, Debug)]
pub struct CanonicalSamples {
    pub frame: FrameSamples,
    pub engine_apply_overhead: u128,
}

/// `r` holds the spans of `timing` completed by `applied`.
pub open spec fn frame_samples_match(
    timing: FeedMessageTiming,
    applied: AppliedMessageTiming,
    r: FrameSamples,
) -> bool {
    &&& r.frame_to_canonical == span(applied.completed_at, timing.frame_received_at)
    // A zero stamp means the message carried none (L1-derived or synthetic).
    &&& match r.sequenced_to_received {
        Some(x) => timing.sequenced_at_secs != 0 && sequenced_to_received(
            timing.frame_received_wall,
            timing.sequenced_at_secs,
        ) == Some(x as int),
        None => timing.sequenced_at_secs == 0 || sequenced_to_received(
            timing.frame_received_wall,
            timing.sequenced_at_secs,
        ) is None,
    }
    &&& match r.sequenced_to_state {
        Some(y) => r.sequenced_to_received matches Some(x) && y == x + r.frame_to_canonical,
        None => r.sequenced_to_received is None,
    }
    &&& r.frame_decode == match timing.ready_for_channel_at {
        Some(ready) => Some(span(ready, timing.frame_received_at)),
        None => None::<u128>,
    }
    &&& r.channel_wait == match (timing.ready_for_channel_at, timing.driver_dequeued_at) {
        (Some(ready), Some(dequeued)) => Some(span(dequeued, ready)),
        _ => None::<u128>,
    }
    &&& r.sequencing_wait == match (timing.ready_for_channel_at, timing.driver_dequeued_at) {
        (Some(_), Some(dequeued)) => Some(span(applied.started_at, dequeued)),
        _ => None::<u128>,
    }
}

/// The apply-path time outside the named outer phases, clamped at zero, so that it
/// stays additive with the end-to-end apply duration.
pub open spec fn apply_overhead(applied: AppliedMessageTiming) -> int {
    if applied.total >= applied.named_phases() {
        applied.total - applied.named_phases()
    } else {
        0
    }
}

/// `r` holds the samples of `timing` completed by `applied`.
pub open spec fn samples_match(
    timing: FeedMessageTiming,
    applied: AppliedMessageTiming,
    r: CanonicalSamples,
) -> bool {
    &&& frame_samples_match(timing, applied, r.frame)
    &&& r.engine_apply_overhead == apply_overhead(applied)
}

/// Computes the spans of a frame whose block just became canonical.
pub fn frame_samples(timing: &FeedMessageTiming, applied: &AppliedMessageTiming) -> (r:
    FrameSamples)
    requires
        timing.wf(),
        applied.wf(),
    ensures
        frame_samples_match(*timing, *applied, r),
        timing.sequenced_at_secs != 0 && timing.frame_received_wall >= 0 ==> {
            &&& r.sequenced_to_received matches Some(x) && x == timing.frame_received_wall
                - timing.sequenced_at_secs * 1_000_000_000
            &&& r.sequenced_to_state matches Some(y) && y == timing.frame_received_wall
                - timing.sequenced_at_secs * 1_000_000_000 + (if applied.completed_at
                >= timing.frame_received_at {
                applied.completed_at - timing.frame_received_at
            } else {
                0
            })
        },
{
    let frame_to_canonical: u128 = saturating_span(applied.completed_at, timing.frame_received_at);
    let mut sequenced_to_received: Option<i128> = None;
    let mut sequenced_to_state: Option<i128> = None;
    if timing.sequenced_at_secs != 0 {
        match sequenced_to_received_nanos(timing.frame_received_wall, timing.sequenced_at_secs) {
            Some(offset) => {
                sequenced_to_received = Some(offset);
                sequenced_to_state = Some(offset + frame_to_canonical as i128);
            },
            None => {},
        }
    }
    let mut frame_decode: Option<u128> = None;
    let mut channel_wait: Option<u128> = None;
    let mut sequencing_wait: Option<u128> = None;
    match timing.ready_for_channel_at {
        Some(ready_at) => {
            frame_decode = Some(saturating_span(ready_at, timing.frame_received_at));
            match timing.driver_dequeued_at {
                Some(dequeued_at) => {
                    channel_wait = Some(saturating_span(dequeued_at, ready_at));
                    sequencing_wait = Some(saturating_span(applied.started_at, dequeued_at));
                },
                None => {},
            }
        },
        None => {},
    }
    FrameSamples {
        frame_to_canonical,
        sequenced_to_received,
        sequenced_to_state,
        frame_decode,
        channel_wait,
        sequencing_wait,
    }
}

/// Executable `apply_overhead`.
pub fn engine_apply_overhead(applied: &AppliedMessageTiming) -> (r: u128)
    requires
        applied.outer_phases_fit(),
    ensures
        r == apply_overhead(*applied),
        r == if applied.total >= applied.payload_attributes + applied.payload_job
            + applied.engine_handoff {
            applied.total - (applied.payload_attributes + applied.payload_job
                + applied.engine_handoff)
        } else {
            0
        },
{
    let named: u128 = applied.payload_attributes + applied.payload_job + applied.engine_handoff;
    saturating_span(applied.total, named)
}

/// Computes all samples of a frame whose block just became canonical.
pub fn canonical_samples(timing: &FeedMessageTiming, applied: &AppliedMessageTiming) -> (r:
    CanonicalSamples)
    requires
        timing.wf(),
        applied.wf(),
        applied.outer_phases_fit(),
    ensures
        samples_match(*timing, *applied, r),
{
    CanonicalSamples {
        frame: frame_samples(timing, applied),
        engine_apply_overhead: engine_apply_overhead(applied),
    }
}

} // verus!
