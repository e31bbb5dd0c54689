# snap_sync

Snap sync for an Ethereum node: the stage that walks the account trie key space in
ranges and turns them into snap requests, the bookkeeping of requests in flight, the
checking and decoding of the account ranges that come back, peer selection, progress
accounting, state root discovery, state verification and healing bookkeeping, and the
stage sets that put snap sync into a sync pipeline.

The library under `src/` is written in Verus: every function carries a `requires` /
`ensures` contract over a mathematical model of its data (sequences, maps, integers),
and the properties that span several functions are proof functions (`lemma_*`).
Calls into `alloy-trie`, `alloy-rlp` and `alloy-primitives` (account and storage value
decoding, Merkle proof checks, Keccak-256, address formatting) and the decimal formatting
of integers stand behind small trusted wrappers whose contracts say what the outside code
returns. The clock wrappers in `src/clock.rs` (reading `Instant` and `SystemTime`, and
comparing, converting and building `Duration`s) carry no `ensures`: what the clock reads
depends on the time, and a `Duration` is opaque to the verifier, so nothing is stated of
their results and every contract that involves time holds whatever they return.

- `src/stage.rs`, `src/snap_sync_simplified.rs`, `src/snap_sync_proper.rs`: the three
  snap sync stages.
- `src/hash.rs`: hashes as big-endian integers, the arithmetic of the key walk.
- `src/client.rs`, `src/downloader.rs`, `src/task.rs`, `src/queue.rs`, `src/server.rs`:
  the downloaders, the request queue and the serving side.
- `src/peer_manager.rs`, `src/progress.rs`, `src/state_manager.rs`,
  `src/state_discovery.rs`, `src/state_verifier.rs`, `src/state_healer.rs`: the
  components the stages use.
- `src/sets.rs`, `src/sync_args.rs`, `src/config.rs`: stage selection and configuration.
- `app/`: command line parsing with clap, error types with messages, floating-point
  progress reports, logging, and the asynchronous loops that talk to peers and to the
  consensus engine.
- `tests/`: the scenarios, run against the compiled library.
