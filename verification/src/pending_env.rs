//! The environment of the pending block, derived from its parent header.
//!
//! ArbOS packs the send count, L1 block number and ArbOS format version into the
//! header's `mix_hash` and the send root into `extra_data`. The pending block takes
//! its L1 block number and ArbOS format version from there, so that `eth_call`
//! against `pending` runs under the parent's spec; a block that itself upgrades
//! ArbOS falls back to the parent's spec for its pending environment only.

use arbitrum_alloy_consensus::header::{ArbHeaderDecodeError, ArbHeaderInfo};
use vstd::prelude::*;

verus! {

/// Unsigned big-endian value of a byte string.
pub open spec fn be_value(bytes: Seq<u8>) -> nat
    decreases bytes.len(),
{
    if bytes.len() == 0 {
        0
    } else {
        be_value(bytes.drop_last()) * 256 + bytes.last() as nat
    }
}

/// `256` to the power `n`.
pub open spec fn pow256(n: nat) -> nat
    decreases n,
{
    if n == 0 {
        1
    } else {
        256 * pow256((n - 1) as nat)
    }
}

/// Powers of 256 grow with the exponent.
proof fn lemma_pow256_monotone(i: nat, j: nat)
    requires
        i <= j,
    ensures
        pow256(i) <= pow256(j),
    decreases j - i,
{
    if i < j {
        lemma_pow256_monotone(i, (j - 1) as nat);
    }
}

/// The integer whose big-endian representation is `bytes` (what
/// `u64::from_be_bytes` computes).
pub fn u64_from_be_bytes(bytes: [u8; 8]) -> (r: u64)
    ensures
        r == be_value(bytes@),
{
    assert(pow256(8) == 0x1_0000_0000_0000_0000) by {
        reveal_with_fuel(pow256, 9);
    }
    let mut r: u64 = 0;
    let mut i: usize = 0;
    assert(bytes@.take(0) =~= Seq::<u8>::empty());
    while i < 8
        invariant
            i <= 8,
            r == be_value(bytes@.take(i as int)),
            r < pow256(i as nat),
            pow256(8) == 0x1_0000_0000_0000_0000,
        decreases 8 - i,
    {
        proof {
            lemma_pow256_monotone((i + 1) as nat, 8);
            assert(bytes@.take(i + 1).drop_last() =~= bytes@.take(i as int));
        }
        r = r * 256 + bytes[i] as u64;
        i = i + 1;
    }
    assert(bytes@.take(8) =~= bytes@);
    r
}

/// ArbOS format version under which tip collection was implicit in the version.
pub const ARBOS_VERSION_COLLECT_TIPS_OLD: u64 = 9;

/// Arbitrum information decoded from a header's `extra_data` and `mix_hash`.
#[derive(Clone, Copy, Debug)]
pub struct HeaderInfo {
    pub send_root: [u8; 32],
    pub send_count: u64,
    pub l1_block_number: u64,
    pub arbos_format_version: u64,
    pub collect_tips: bool,
}

impl HeaderInfo {
    /// The header encodes an ArbOS format version.
    pub fn is_arbitrum(&self) -> (r: bool)
        ensures
            r == (self.arbos_format_version > 0),
    {
        self.arbos_format_version > 0
    }
}

/// Why header info could not be decoded.
#[derive(Clone, Copy, Debug, PartialEq, Eq)]
pub enum HeaderDecodeError {
    InvalidExtraDataLength { got: usize },
    InvalidMixHashLength { got: usize },
    NotArbitrum,
}

/// `r` is what decoding `extra_data` and `mix_hash` gives: both must be 32 bytes;
/// the send root is `extra_data`, and the send count, L1 block number and ArbOS
/// format version are the big-endian words at `mix_hash[0..8]`, `[8..16]` and
/// `[16..24]`; tips are collected under the legacy version or when bit 0 of
/// `mix_hash[25]` is set.
pub open spec fn decoded_from(
    extra_data: Seq<u8>,
    mix_hash: Seq<u8>,
    r: Result<HeaderInfo, HeaderDecodeError>,
) -> bool {
    match r {
        Ok(info) => {
            &&& extra_data.len() == 32
            &&& mix_hash.len() == 32
            &&& info.send_root@ == extra_data
            &&& info.send_count == be_value(mix_hash.subrange(0, 8))
            &&& info.l1_block_number == be_value(mix_hash.subrange(8, 16))
            &&& info.arbos_format_version == be_value(mix_hash.subrange(16, 24))
            &&& info.collect_tips == (info.arbos_format_version == ARBOS_VERSION_COLLECT_TIPS_OLD
                || mix_hash[25] & 1u8 == 1u8)
        },
        Err(e) => {
            &&& (extra_data.len() != 32 || mix_hash.len() != 32)
            &&& e == if extra_data.len() != 32 {
                HeaderDecodeError::InvalidExtraDataLength { got: extra_data.len() as usize }
            } else {
                HeaderDecodeError::InvalidMixHashLength { got: mix_hash.len() as usize }
            }
        },
    }
}

/// `ArbHeaderInfo::decode_header_parts`: decodes Arbitrum header info from
/// `extra_data` and `mix_hash` exactly as `decoded_from` states (its source checks
/// both lengths, then reads the send root and three big-endian words).
#[verifier::external_body]
fn decode_header_parts(extra_data: &[u8], mix_hash: &[u8]) -> (r: Result<HeaderInfo, HeaderDecodeError>)
    ensures
        decoded_from(extra_data@, mix_hash@, r),
{
    match ArbHeaderInfo::decode_header_parts(extra_data, mix_hash) {
        Ok(i) => Ok(HeaderInfo {
            send_root: i.send_root.0,
            send_count: i.send_count,
            l1_block_number: i.l1_block_number,
            arbos_format_version: i.arbos_format_version,
            collect_tips: i.collect_tips,
        }),
        Err(ArbHeaderDecodeError::InvalidExtraDataLength { got }) => Err(HeaderDecodeError::InvalidExtraDataLength { got }),
        Err(ArbHeaderDecodeError::InvalidMixHashLength { got }) => Err(HeaderDecodeError::InvalidMixHashLength { got }),
        Err(ArbHeaderDecodeError::NotArbitrum) => Err(HeaderDecodeError::NotArbitrum),
    }
}

/// The parent-header fields the pending environment is built from.
#[derive(Clone, Debug)]
pub struct ParentHeader {
    pub timestamp: u64,
    pub beneficiary: [u8; 20],
    pub gas_limit: u64,
    pub mix_hash: Option<[u8; 32]>,
    pub extra_data: Vec<u8>,
    pub nonce: Option<[u8; 8]>,
}

/// One withdrawal of a block's withdrawal list.
#[derive(Clone, Copy, Debug)]
pub struct Withdrawal {
    pub index: u64,
    pub validator_index: u64,
    pub address: [u8; 20],
    pub amount: u64,
}

/// Environment attributes of the next (pending) block. `prev_randao` and
/// `l1_base_fee_wei` are 32-byte big-endian words.
#[derive(Clone, Debug)]
pub struct ArbNextBlockEnvAttributes {
    pub timestamp: u64,
    pub suggested_fee_recipient: [u8; 20],
    pub prev_randao: [u8; 32],
    pub gas_limit: u64,
    pub l1_block_number: u64,
    pub l1_base_fee_wei: [u8; 32],
    pub arbos_format_version: u64,
    pub delayed_messages_read: u64,
    pub extra_data: Vec<u8>,
    pub withdrawals: Option<Vec<Withdrawal>>,
    pub finish_timing_out: bool,
}

/// The parent carries decodable Arbitrum header info with a non-zero ArbOS format
/// version.
pub open spec fn parent_is_arbitrum(parent: ParentHeader) -> bool {
    &&& parent.mix_hash is Some
    &&& parent.extra_data@.len() == 32
    &&& be_value(parent.mix_hash.unwrap()@.subrange(16, 24)) > 0
}

/// Builds the pending block's environment from its parent: one second later,
/// same fee recipient and gas limit, the parent's L1 block number and ArbOS format
/// version (0 for a non-Arbitrum or undecodable parent), the delayed-message count
/// from the parent's nonce (0 without one), zero randao and L1 base fee, empty extra
/// data, no withdrawals and the finish-timing-out flag unset.
pub fn build_pending_env(parent: &ParentHeader) -> (env: ArbNextBlockEnvAttributes)
    ensures
        env.timestamp == if parent.timestamp < u64::MAX {
            (parent.timestamp + 1) as u64
        } else {
            u64::MAX
        },
        env.suggested_fee_recipient == parent.beneficiary,
        env.gas_limit == parent.gas_limit,
        parent.mix_hash is Some && parent.extra_data@.len() == 32 && be_value(
            parent.mix_hash.unwrap()@.subrange(16, 24),
        ) > 0 ==> {
            &&& env.arbos_format_version == be_value(parent.mix_hash.unwrap()@.subrange(16, 24))
            &&& env.l1_block_number == be_value(parent.mix_hash.unwrap()@.subrange(8, 16))
        },
        env.l1_block_number == if parent_is_arbitrum(*parent) {
            be_value(parent.mix_hash.unwrap()@.subrange(8, 16))
        } else {
            0
        },
        env.arbos_format_version == if parent_is_arbitrum(*parent) {
            be_value(parent.mix_hash.unwrap()@.subrange(16, 24))
        } else {
            0
        },
        env.delayed_messages_read == match parent.nonce {
            Some(n) => be_value(n@),
            None => 0,
        },
        env.prev_randao@ == Seq::new(32, |i: int| 0u8),
        env.l1_base_fee_wei@ == Seq::new(32, |i: int| 0u8),
        env.extra_data@ == Seq::<u8>::empty(),
        env.withdrawals is None,
        !env.finish_timing_out,
{
    let info: Option<HeaderInfo> = match &parent.mix_hash {
        Some(mix) => match decode_header_parts(parent.extra_data.as_slice(), mix.as_slice()) {
            Ok(i) => if i.is_arbitrum() {
                Some(i)
            } else {
                None
            },
            Err(_) => None,
        },
        None => None,
    };
    let (l1_block_number, arbos_format_version): (u64, u64) = match info {
        Some(i) => (i.l1_block_number, i.arbos_format_version),
        None => (0, 0),
    };
    let delayed_messages_read: u64 = match parent.nonce {
        Some(n) => u64_from_be_bytes(n),
        None => 0,
    };
    let env = ArbNextBlockEnvAttributes {
        timestamp: parent.timestamp.saturating_add(1),
        suggested_fee_recipient: parent.beneficiary,
        prev_randao: [0u8; 32],
        gas_limit: parent.gas_limit,
        l1_block_number,
        l1_base_fee_wei: [0u8; 32],
        arbos_format_version,
        delayed_messages_read,
        extra_data: Vec::new(),
        withdrawals: None,
        finish_timing_out: false,
    };
    assert(env.prev_randao@ =~= Seq::new(32, |i: int| 0u8));
    assert(env.l1_base_fee_wei@ =~= Seq::new(32, |i: int| 0u8));
    env
}

} // verus!
