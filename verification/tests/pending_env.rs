use arb_reth::pending_env::{build_pending_env, u64_from_be_bytes, HeaderInfo, ParentHeader};

fn mix_hash(send_count: u64, l1_block_number: u64, arbos_format_version: u64) -> [u8; 32] {
    let mut out = [0u8; 32];
    out[..8].copy_from_slice(&send_count.to_be_bytes());
    out[8..16].copy_from_slice(&l1_block_number.to_be_bytes());
    out[16..24].copy_from_slice(&arbos_format_version.to_be_bytes());
    out
}

fn parent() -> ParentHeader {
    ParentHeader {
        timestamp: 1_700_000_000,
        beneficiary: [0xab; 20],
        gas_limit: 1_125_899_906_842_624,
        mix_hash: Some(mix_hash(3, 21_000_123, 32)),
        extra_data: vec![0x11; 32],
        nonce: Some(42u64.to_be_bytes()),
    }
}

#[test]
fn pending_env_takes_l1_block_and_arbos_version_from_the_parent() {
    let env = build_pending_env(&parent());
    assert_eq!(env.timestamp, 1_700_000_001);
    assert_eq!(env.suggested_fee_recipient, [0xab; 20]);
    assert_eq!(env.gas_limit, 1_125_899_906_842_624);
    assert_eq!(env.l1_block_number, 21_000_123);
    assert_eq!(env.arbos_format_version, 32);
    assert_eq!(env.delayed_messages_read, 42);
    assert_eq!(env.prev_randao, [0u8; 32]);
    assert_eq!(env.l1_base_fee_wei, [0u8; 32]);
    assert!(env.extra_data.is_empty());
    assert!(env.withdrawals.is_none());
    assert!(!env.finish_timing_out);
}

#[test]
fn pending_env_reads_the_nonce_big_endian() {
    let mut p = parent();
    p.nonce = Some([0, 0, 0, 0, 0, 0, 1, 2]);
    assert_eq!(build_pending_env(&p).delayed_messages_read, 258);
    p.nonce = None;
    assert_eq!(build_pending_env(&p).delayed_messages_read, 0);
}

#[test]
fn pending_env_timestamp_saturates() {
    let mut p = parent();
    p.timestamp = u64::MAX;
    assert_eq!(build_pending_env(&p).timestamp, u64::MAX);
}

#[test]
fn pending_env_of_a_non_arbitrum_parent_is_zero() {
    let mut p = parent();
    p.mix_hash = Some(mix_hash(3, 21_000_123, 0));
    let env = build_pending_env(&p);
    assert_eq!(env.l1_block_number, 0);
    assert_eq!(env.arbos_format_version, 0);
}

#[test]
fn pending_env_of_an_undecodable_parent_is_zero() {
    let mut p = parent();
    p.extra_data = vec![0x11; 31];
    let env = build_pending_env(&p);
    assert_eq!(env.l1_block_number, 0);
    assert_eq!(env.arbos_format_version, 0);

    let mut p = parent();
    p.mix_hash = None;
    let env = build_pending_env(&p);
    assert_eq!(env.l1_block_number, 0);
    assert_eq!(env.arbos_format_version, 0);
    assert_eq!(env.delayed_messages_read, 42);
}

#[test]
fn header_info_is_arbitrum_only_with_a_format_version() {
    let mut info = HeaderInfo {
        send_root: [0; 32],
        send_count: 0,
        l1_block_number: 0,
        arbos_format_version: 0,
        collect_tips: false,
    };
    assert!(!info.is_arbitrum());
    info.arbos_format_version = 1;
    assert!(info.is_arbitrum());
}

#[test]
fn u64_from_be_bytes_reads_big_endian() {
    assert_eq!(u64_from_be_bytes([0, 0, 0, 0, 0, 0, 1, 2]), 258);
    assert_eq!(u64_from_be_bytes([0xff; 8]), u64::MAX);
    assert_eq!(u64_from_be_bytes([1, 0, 0, 0, 0, 0, 0, 0]), 1 << 56);
    assert_eq!(u64_from_be_bytes(0x0123_4567_89ab_cdefu64.to_be_bytes()), 0x0123_4567_89ab_cdef);
}
