//! Executed-block push: a pre-canonical notification for co-located consumers,
//! emitted the moment a block's transaction loop finishes, before the state-root
//! wait, header assembly and canonicalization. It carries receipts in the shape of
//! `eth_getBlockReceipts` (per transaction the sender and its full logs, empty for a
//! reverted transaction). It is not a sealed block and not a canonicality claim.

use vstd::prelude::*;

verus! {

/// One log: emitting contract, topics and data.
#[derive(Clone, Debug)]
pub struct PushLog {
    pub address: [u8; 20],
    pub topics: Vec<[u8; 32]>,
    pub data: Vec<u8>,
}

/// One executed transaction: sender, success flag, and its full logs.
#[derive(Clone, Debug)]
pub struct ExecutedTx {
    pub from: [u8; 20],
    pub status: bool,
    pub logs: Vec<PushLog>,
}

/// The pre-canonical executed-block notification, one per produced block,
/// including ArbOS-internal transactions. `sequence_number` is the feed sequence
/// number, the join key for a block's feed ingress.
#[derive(Clone, Debug)]
pub struct ExecutedBlock {
    pub block_number: u64,
    pub sequence_number: u64,
    pub timestamp: u64,
    pub txs: Vec<ExecutedTx>,
}

} // verus!
