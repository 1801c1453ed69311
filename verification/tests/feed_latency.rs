use std::time::Duration;

use arb_reth::samples::{
    engine_apply_overhead, frame_samples, sequenced_to_received_nanos, AppliedMessageTiming,
};
use arb_reth::tables::{IngressLog, MessageTimings, MAX_INGRESS_BLOCKS, MAX_TRACKED_MESSAGES};
use arb_reth::tracker::FeedLatencyTracker;

/// Wall-clock stamp, in nanoseconds since the Unix epoch, of a moment given in seconds.
fn wall(secs_since_epoch: f64) -> i128 {
    Duration::from_secs_f64(secs_since_epoch).as_nanos() as i128
}

/// Offset in seconds between a received wall stamp and a sequencer stamp.
fn offset(received: f64, stamp: u64) -> f64 {
    let nanos = sequenced_to_received_nanos(wall(received), stamp).expect("post-1970 clock");
    nanos as f64 / 1e9
}

#[test]
fn sequenced_to_received_is_the_sub_second_offset_from_the_stamp() {
    // The sequencer stamped 1_786_294_297; the frame landed 250ms into that second.
    let offset = offset(1_786_294_297.25, 1_786_294_297);
    assert!((offset - 0.25).abs() < 1e-9, "{offset}");
}

#[test]
fn sequenced_to_received_spans_whole_seconds() {
    let offset = offset(1_786_294_299.5, 1_786_294_297);
    assert!((offset - 2.5).abs() < 1e-9, "{offset}");
}

#[test]
fn sequenced_to_received_is_negative_when_the_local_clock_trails() {
    let offset = offset(1_786_294_296.75, 1_786_294_297);
    assert!((offset + 0.25).abs() < 1e-9, "{offset}");
}

#[test]
fn sequenced_to_received_is_exact_in_nanoseconds() {
    assert_eq!(
        sequenced_to_received_nanos(1_786_294_297_250_000_001, 1_786_294_297),
        Some(250_000_001)
    );
    assert_eq!(sequenced_to_received_nanos(0, 1), Some(-1_000_000_000));
}

#[test]
fn sequenced_to_received_is_absent_before_1970() {
    assert_eq!(sequenced_to_received_nanos(-1, 0), None);
}

/// An applied timing with only the join key populated.
fn applied_timing(block_number: u64) -> AppliedMessageTiming {
    AppliedMessageTiming {
        block_number,
        started_at: 0,
        completed_at: 0,
        payload_attributes: 0,
        payload_job: 0,
        payload_job_launch: 0,
        payload_job_resolve: 0,
        payload_job_overhead: 0,
        block_production: 0,
        block_production_unattributed: 0,
        block_parent_state: 0,
        block_message_preparation: 0,
        block_state_setup: 0,
        block_execution: 0,
        block_execution_setup: 0,
        block_start_block_transaction_construction: 0,
        block_start_block_transaction: 0,
        block_derived_transactions: 0,
        block_derived_transaction_execution: 0,
        block_derived_retry_scheduling: 0,
        block_derived_transactions_unattributed: 0,
        block_execution_unattributed: 0,
        block_finish: 0,
        block_finish_executor: 0,
        block_finish_hashed_state: 0,
        block_finish_state_root: 0,
        block_finish_state_root_task_wait: None,
        block_finish_state_root_task_succeeded: None,
        block_finish_assembly: 0,
        block_finish_unattributed: 0,
        engine_handoff: 0,
        engine_insert: 0,
        engine_forkchoice: 0,
        canonicalization_wait: 0,
        total: 0,
    }
}

#[test]
fn feed_ingress_serves_the_exact_wall_stamp_recorded_at_frame_arrival() {
    let mut tracker = FeedLatencyTracker::new();
    let received_wall = wall(1_786_294_297.25);
    tracker.record_frame_arrival(7, 0, received_wall, 1_786_294_297);
    tracker.record_canonical(7, &applied_timing(370_000_007));

    assert_eq!(tracker.feed_ingress(370_000_007), Some((received_wall, 7)));
    // A block whose frame was never tracked has no entry to serve.
    assert_eq!(tracker.feed_ingress(370_000_008), None);
}

#[test]
fn feed_ingress_evicts_the_oldest_block_past_capacity() {
    let mut tracker = FeedLatencyTracker::new();
    let received_at = 0u128;
    let received_wall = wall(1_786_294_297.0);
    let first_block = 100u64;
    // One entry past capacity through the public recording path. The frame-arrival map is
    // drained by each record_canonical, so only the ingress window accumulates.
    for seq in 0..=MAX_INGRESS_BLOCKS as u64 {
        tracker.record_frame_arrival(seq, received_at, received_wall, 1_786_294_297);
        tracker.record_canonical(seq, &applied_timing(first_block + seq));
    }

    assert_eq!(
        tracker.feed_ingress(first_block),
        None,
        "oldest block must be evicted by the insert that crossed capacity"
    );
    assert!(tracker.feed_ingress(first_block + 1).is_some());
    assert!(tracker.feed_ingress(first_block + MAX_INGRESS_BLOCKS as u64).is_some());
}

#[test]
fn duplicated_frame_keeps_the_first_receipt() {
    let mut tracker = FeedLatencyTracker::new();
    assert!(!tracker.record_frame_arrival(3, 10, 1_000, 1));
    assert!(!tracker.record_frame_arrival(3, 20, 2_000, 2));
    assert_eq!(tracker.record_push(3, 25), Some(15));
    tracker.record_canonical(3, &applied_timing(50));
    assert_eq!(tracker.feed_ingress(50), Some((1_000, 3)));
}

#[test]
fn completed_frame_is_forgotten() {
    let mut tracker = FeedLatencyTracker::new();
    tracker.record_frame_arrival(4, 10, 1_000, 1);
    assert!(tracker.record_canonical(4, &applied_timing(60)).is_some());
    assert_eq!(tracker.record_push(4, 30), None);
    assert!(tracker.record_canonical(4, &applied_timing(61)).is_none());
    assert_eq!(tracker.feed_ingress(61), None);
    assert_eq!(tracker.feed_ingress(60), Some((1_000, 4)));
}

#[test]
fn untracked_sequence_records_nothing() {
    let mut tracker = FeedLatencyTracker::new();
    tracker.record_ready_for_channel(9, 5);
    tracker.record_driver_dequeue(9, 6);
    assert_eq!(tracker.record_push(9, 7), None);
    assert!(tracker.record_canonical(9, &applied_timing(1)).is_none());
    assert_eq!(tracker.feed_ingress(1), None);
}

#[test]
fn frame_table_drops_the_oldest_sequence_at_capacity() {
    let mut tracker = FeedLatencyTracker::new();
    for seq in 0..MAX_TRACKED_MESSAGES as u64 {
        assert!(!tracker.record_frame_arrival(seq, seq as u128, 0, 0));
    }
    // The insert that crosses capacity drops sequence 0 and says so.
    assert!(tracker.record_frame_arrival(100_000, 1_000_000, 0, 0));
    assert_eq!(tracker.record_push(0, 1_000_000), None);
    assert_eq!(tracker.record_push(1, 1_000_000), Some(999_999));
    assert_eq!(tracker.record_push(100_000, 1_000_500), Some(500));
}

#[test]
fn push_sample_saturates_at_zero() {
    let mut tracker = FeedLatencyTracker::new();
    tracker.record_frame_arrival(1, 1_000, 0, 0);
    assert_eq!(tracker.record_push(1, 400), Some(0));
}

#[test]
fn canonical_samples_follow_the_recorded_phases() {
    let mut tracker = FeedLatencyTracker::new();
    let received_wall = 1_786_294_297_250_000_000i128;
    tracker.record_frame_arrival(11, 1_000, received_wall, 1_786_294_297);
    tracker.record_ready_for_channel(11, 1_300);
    tracker.record_driver_dequeue(11, 1_700);
    let mut applied = applied_timing(900);
    applied.started_at = 2_000;
    applied.completed_at = 5_000;
    applied.payload_attributes = 100;
    applied.payload_job = 200;
    applied.engine_handoff = 300;
    applied.total = 1_000;
    let s = tracker.record_canonical(11, &applied).expect("tracked");
    assert_eq!(s.frame.frame_to_canonical, 4_000);
    assert_eq!(s.frame.sequenced_to_received, Some(250_000_000));
    assert_eq!(s.frame.sequenced_to_state, Some(250_004_000));
    assert_eq!(s.frame.frame_decode, Some(300));
    assert_eq!(s.frame.channel_wait, Some(400));
    assert_eq!(s.frame.sequencing_wait, Some(300));
    assert_eq!(s.engine_apply_overhead, 400);
}

#[test]
fn canonical_samples_skip_missing_phases_and_unstamped_messages() {
    let mut tracker = FeedLatencyTracker::new();
    tracker.record_frame_arrival(12, 1_000, 5_000_000_000, 0);
    tracker.record_driver_dequeue(12, 1_700);
    let mut applied = applied_timing(901);
    applied.completed_at = 900;
    applied.payload_attributes = 600;
    applied.payload_job = 600;
    applied.total = 1_000;
    let s = tracker.record_canonical(12, &applied).expect("tracked");
    assert_eq!(s.frame.frame_to_canonical, 0);
    assert_eq!(s.frame.sequenced_to_received, None);
    assert_eq!(s.frame.sequenced_to_state, None);
    assert_eq!(s.frame.frame_decode, None);
    assert_eq!(s.frame.channel_wait, None);
    assert_eq!(s.frame.sequencing_wait, None);
    assert_eq!(s.engine_apply_overhead, 0);
}

#[test]
fn canonical_samples_skip_a_pre_1970_clock() {
    let mut tracker = FeedLatencyTracker::new();
    tracker.record_frame_arrival(13, 0, -5, 1_786_294_297);
    tracker.record_ready_for_channel(13, 10);
    let s = tracker.record_canonical(13, &applied_timing(902)).expect("tracked");
    assert_eq!(s.frame.sequenced_to_received, None);
    assert_eq!(s.frame.sequenced_to_state, None);
    assert_eq!(s.frame.frame_decode, Some(10));
    assert_eq!(tracker.feed_ingress(902), Some((-5, 13)));
}

#[test]
fn outer_phases_fit_unless_their_sum_overflows_a_duration() {
    let mut applied = applied_timing(1);
    assert!(applied.outer_phases_fit_exec());
    let max = 18_446_744_073_709_551_615_999_999_999u128;
    applied.payload_attributes = max - 10;
    applied.payload_job = 5;
    applied.engine_handoff = 5;
    assert!(applied.outer_phases_fit_exec());
    assert_eq!(engine_apply_overhead(&applied), 0);
    applied.engine_handoff = 6;
    assert!(!applied.outer_phases_fit_exec());
}

#[test]
fn table_steps_end_a_measurement_like_the_tracker() {
    let mut messages = MessageTimings::new();
    let mut ingress = IngressLog::new();
    messages.record_frame_arrival(5, 100, 7_000, 0);
    messages.record_frame_arrival(6, 100, 8_000, 0);
    assert_eq!(messages.record_push(5, 250), Some(150));
    let mut applied = applied_timing(70);
    applied.completed_at = 400;
    let timing = messages.complete(5).expect("tracked");
    assert_eq!(frame_samples(&timing, &applied).frame_to_canonical, 300);
    assert_eq!(messages.record_push(5, 250), None);
    assert!(messages.complete(5).is_none());
    let timing = messages.complete(6).expect("tracked");
    ingress.retain_completed(6, &timing, 71);
    assert_eq!(ingress.feed_ingress(70), None);
    assert_eq!(ingress.feed_ingress(71), Some((8_000, 6)));
}

#[test]
fn untracked_completion_accepts_any_applied_timing() {
    let mut tracker = FeedLatencyTracker::new();
    let mut applied = applied_timing(3);
    applied.total = u128::MAX;
    applied.payload_attributes = u128::MAX;
    assert!(tracker.record_canonical(99, &applied).is_none());
    assert_eq!(tracker.feed_ingress(3), None);
}
