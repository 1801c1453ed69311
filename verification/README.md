# arb_reth

Verified bookkeeping for an Arbitrum reth node's live sequencer-feed path.

- `src/` is the verified library:
  - `time`: nanosecond instants, durations and wall stamps, with their bounds.
  - `tables`: the bounded frame-timing table (keyed by feed sequence number) and the
    per-block ingress retention window, both evicting their oldest key at capacity.
  - `samples`: the latency spans derived when a block becomes canonical.
  - `tracker`: the single-owner `FeedLatencyTracker` built from the two tables.
  - `laws`: properties that span several tracker operations.
  - `pending_env`: the pending block environment derived from a parent header.
  - `push`: the executed-block push payload.
- `app/` shares the tables between tasks behind locks, records the spans as
  Prometheus histograms, serializes the push payload with alloy types, and reads
  parent headers through alloy's `BlockHeader`.

The original node also implemented alloy-evm's `TryIntoTxEnv` for its RPC transaction
request type: a single outside conversion wrapped in the node's own transaction type.
That impl has no logic of its own and its crates are not dependencies here, so it is
left out.
