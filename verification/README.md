# zksync_node_core

Verified parts of a rollup node, written in [Verus](https://github.com/verus-lang/verus).

- `src/tree` keeps the state tree in step with L1 batches. `entries` holds storage logs and the answers
  of the Merkle tree to them; `writes` and `witness` derive what a batch leaves for L1 and for the
  prover; `database` and `domain` know the saved and unsaved versions of the tree; `thread_pool` creates
  the pool that the tree computes on. `laws` relates the operations to each other, `contents` says how
  batches change the leaves of the tree, and `history` says what readers see over time.
- `src/api` holds the metrics of the JSON-RPC server: the labels under which events are counted, and
  the decision which events are reported to the log.
- `src/sgx_jobs.rs` holds the rules of second-factor proof jobs: how they are created, selected, and
  marked as successful or failed.
- `app` is the ordinary Rust around the library: the driver of a Merkle tree, the exported metrics, and
  the stored form of jobs.

The Merkle tree itself is driven from outside. `ZkSyncTree::prepare_l1_batch` says what a batch asks of
it, and `ZkSyncTree::process_l1_batch` takes its answer.
