//! The tree of the node, tied to L1 batches.

use rayon::ThreadPool;
use vstd::prelude::*;

use crate::tree::database::{
    batch_number_after, latest_root, pruned, TreeDatabase, TreeDatabaseView, TreeRoot, Versions,
    ZkSyncTreeReader,
};
use crate::tree::entries::{
    filter_write_instructions, hash_entry_keys, hash_instruction_keys, hashed_entry,
    hashed_instruction, last_root_hash, writes_of, BlockOutput, BlockOutputWithProofs, StorageKey,
    TreeEntry, TreeInstruction, TreeLogEntry, TreeLogEntryWithProof,
};
use crate::tree::thread_pool::{create_thread_pool, is_pool_of, ThreadPoolInitError};
use crate::tree::witness::{
    are_answered, compose_witness, is_answered, witness_logs, PrepareBasicCircuitsJob, WitnessView,
};
use crate::tree::writes::{
    extract_writes, initial_writes, paired, repeated_writes, InitialStorageWrite,
    RepeatedStorageWrite,
};
use crate::types::{Key, L1BatchNumber, ValueHash};

verus! {

/// How the tree processes L1 batches.
#[derive(Debug, Clone, Copy, PartialEq, Eq)]
pub enum TreeMode {
    /// Only writes are applied, and no witness is produced.
    Lightweight,
    /// Reads and writes are applied, and a witness is produced.
    Full,
}

/// What an L1 batch asks of the Merkle tree.
#[derive(Debug, Clone, PartialEq, Eq)]
pub enum TreeRequest {
    /// Apply the instructions, and prove each of them.
    ExtendWithProofs(Vec<TreeInstruction<Key>>),
    /// Apply the writes.
    Extend(Vec<TreeEntry<Key>>),
}

/// Answer of the Merkle tree to a [`TreeRequest`].
#[derive(Debug, Clone, PartialEq, Eq)]
pub enum TreeOutput {
    /// Answer to a request with proofs.
    WithProofs(BlockOutputWithProofs),
    /// Answer to a request without proofs.
    WithoutProofs(BlockOutput),
}

impl TreeOutput {
    /// Number of leaves in the tree after the batch.
    pub open spec fn leaf_count(&self) -> u64 {
        match *self {
            TreeOutput::WithProofs(output) => output.leaf_count,
            TreeOutput::WithoutProofs(output) => output.leaf_count,
        }
    }
}

/// A request to check that a version of the Merkle tree is consistent.
#[derive(Debug, Clone, Copy, PartialEq, Eq)]
pub struct ConsistencyRequest {
    /// Version of the tree.
    pub version: u64,
    /// Whether to check the enumeration indexes of leaves, too.
    pub validate_indices: bool,
}

/// Metadata for the current tree state.
#[derive(Debug, Clone, PartialEq, Eq)]
pub struct TreeMetadata {
    /// Current root hash of the tree.
    pub root_hash: ValueHash,
    /// 1-based index of the next leaf to be inserted in the tree.
    pub rollup_last_leaf_index: u64,
    /// Initial writes performed in the processed L1 batch in the order of the storage logs.
    pub initial_writes: Vec<InitialStorageWrite>,
    /// Repeated writes performed in the processed L1 batch in the order of the storage logs. No-op
    /// writes (i.e., writing the same value as previously) are omitted.
    pub repeated_writes: Vec<RepeatedStorageWrite>,
    /// Witness information. As with `repeated_writes`, no-op updates are omitted.
    pub witness: Option<PrepareBasicCircuitsJob>,
}

/// Abstract contents of a [`TreeMetadata`].
#[verifier::ext_equal]
pub struct TreeMetadataView {
    pub root_hash: ValueHash,
    pub rollup_last_leaf_index: int,
    pub initial_writes: Seq<InitialStorageWrite>,
    pub repeated_writes: Seq<RepeatedStorageWrite>,
    pub witness: Option<WitnessView>,
}

impl View for TreeMetadata {
    type V = TreeMetadataView;

    open spec fn view(&self) -> TreeMetadataView {
        TreeMetadataView {
            root_hash: self.root_hash,
            rollup_last_leaf_index: self.rollup_last_leaf_index as int,
            initial_writes: self.initial_writes@,
            repeated_writes: self.repeated_writes@,
            witness: match self.witness {
                Some(witness) => Some(witness@),
                None => None,
            },
        }
    }
}

/// Domain-specific state of the Merkle tree.
///
/// Changes introduced by [`Self::process_l1_batch()`] and [`Self::revert_logs()`] accumulate in RAM.
/// They can be saved to the database via [`Self::save()`], or discarded via [`Self::reset()`].
#[derive(Debug)]
pub struct ZkSyncTree {
    /// Saved state.
    db: TreeDatabase,
    /// Number of saved versions that the current state builds on.
    retained_version_count: usize,
    /// Versions on top of the retained ones that are not saved yet.
    unsaved_versions: Vec<Option<TreeRoot>>,
    thread_pool: Option<ThreadPool>,
    mode: TreeMode,
    pruning_enabled: bool,
}

/// Abstract contents of a [`ZkSyncTree`].
#[verifier::ext_equal]
pub struct ZkSyncTreeView {
    /// Saved state.
    pub db: TreeDatabaseView,
    /// Number of saved versions that the current state builds on.
    pub retained_version_count: nat,
    /// Versions on top of the retained ones that are not saved yet.
    pub unsaved_versions: Versions,
    pub thread_pool: Option<ThreadPool>,
    pub mode: TreeMode,
    pub pruning_enabled: bool,
}

impl ZkSyncTreeView {
    /// No more saved versions are retained than there are.
    pub open spec fn is_consistent(self) -> bool {
        self.retained_version_count <= self.db.versions.len()
    }

    /// Versions of the tree, the unsaved ones included.
    pub open spec fn versions(self) -> Versions {
        self.db.versions.take(self.retained_version_count as int) + self.unsaved_versions
    }

    /// Root of the latest version.
    pub open spec fn latest_root(self) -> TreeRoot {
        latest_root(self.versions(), self.db.empty_tree_hash())
    }

    /// The tree over the specified database, without unsaved changes.
    pub open spec fn fresh(db: TreeDatabaseView, mode: TreeMode) -> Self {
        ZkSyncTreeView {
            db,
            retained_version_count: db.versions.len(),
            unsaved_versions: Seq::empty(),
            thread_pool: None,
            mode,
            pruning_enabled: false,
        }
    }

    /// The tree with one more version.
    pub open spec fn with_version(self, root: TreeRoot) -> Self {
        ZkSyncTreeView { unsaved_versions: self.unsaved_versions.push(Some(root)), ..self }
    }

    /// The tree with its unsaved changes discarded.
    pub open spec fn after_reset(self) -> Self {
        ZkSyncTreeView {
            retained_version_count: self.db.versions.len(),
            unsaved_versions: Seq::empty(),
            ..self
        }
    }

    /// The tree with its unsaved changes saved.
    pub open spec fn after_save(self) -> Self {
        ZkSyncTreeView {
            db: TreeDatabaseView { versions: self.versions(), ..self.db },
            retained_version_count: self.versions().len(),
            unsaved_versions: Seq::empty(),
            ..self
        }
    }

    /// The tree with its unsaved changes discarded, and with no more than the specified number of
    /// saved versions retained.
    pub open spec fn after_revert(self, retained_version_count: nat) -> Self {
        ZkSyncTreeView {
            retained_version_count: if retained_version_count < self.db.versions.len() {
                retained_version_count
            } else {
                self.db.versions.len()
            },
            unsaved_versions: Seq::empty(),
            ..self
        }
    }

    /// The tree with the saved versions before the specified one removed.
    pub open spec fn after_pruning(self, first_retained_version: nat) -> Self {
        ZkSyncTreeView {
            db: TreeDatabaseView {
                versions: pruned(self.db.versions, first_retained_version),
                ..self.db
            },
            ..self
        }
    }
}

/// The log entries that changed the tree.
pub open spec fn changes_of(logs: Seq<TreeLogEntryWithProof>) -> Seq<TreeLogEntry> {
    logs.filter_map(|log| change(log))
}

/// The log entry, if it changed the tree.
pub open spec fn change(log: TreeLogEntryWithProof) -> Option<TreeLogEntry> {
    if log.base.spec_is_read() {
        None
    } else {
        Some(log.base)
    }
}

/// Metadata that a tree in the full mode produces on an L1 batch.
pub open spec fn full_metadata(
    tree: ZkSyncTreeView,
    instructions: Seq<TreeInstruction<StorageKey>>,
    output: BlockOutputWithProofs,
) -> TreeMetadataView {
    TreeMetadataView {
        root_hash: match last_root_hash(output.logs@) {
            Some(root_hash) => root_hash,
            None => tree.latest_root().root_hash,
        },
        rollup_last_leaf_index: output.leaf_count + 1,
        initial_writes: initial_writes(changes_of(output.logs@), writes_of(instructions)),
        repeated_writes: repeated_writes(changes_of(output.logs@), writes_of(instructions)),
        witness: Some(
            WitnessView {
                next_enumeration_index: (tree.latest_root().leaf_count + 1) as u64,
                logs: witness_logs(output.logs@, instructions, tree.db.empty_subtree_hashes),
            },
        ),
    }
}

/// Metadata that a tree in the lightweight mode produces on an L1 batch.
pub open spec fn lightweight_metadata(
    instructions: Seq<TreeInstruction<StorageKey>>,
    output: BlockOutput,
) -> TreeMetadataView {
    TreeMetadataView {
        root_hash: output.root_hash,
        rollup_last_leaf_index: output.leaf_count + 1,
        initial_writes: initial_writes(output.logs@, writes_of(instructions)),
        repeated_writes: repeated_writes(output.logs@, writes_of(instructions)),
        witness: None,
    }
}

/// Metadata that a tree produces on an L1 batch.
pub open spec fn batch_metadata(
    tree: ZkSyncTreeView,
    instructions: Seq<TreeInstruction<StorageKey>>,
    output: TreeOutput,
) -> TreeMetadataView {
    match output {
        TreeOutput::WithProofs(output) => full_metadata(tree, instructions, output),
        TreeOutput::WithoutProofs(output) => lightweight_metadata(instructions, output),
    }
}

/// Whether the tree in the full mode can process an output: indexes of leaves do not overflow, and
/// each log can answer its instruction.
pub open spec fn accepts_with_proofs(
    tree: ZkSyncTreeView,
    instructions: Seq<TreeInstruction<StorageKey>>,
    output: BlockOutputWithProofs,
) -> bool {
    &&& tree.latest_root().leaf_count < u64::MAX
    &&& output.leaf_count < u64::MAX
    &&& forall|i: int|
        0 <= i < paired(output.logs@, instructions).len() ==> is_answered(
            #[trigger] paired(output.logs@, instructions)[i],
        )
}

/// Whether the tree can process an output: the output is of the kind that the mode of the tree asks
/// for, indexes of leaves do not overflow, and proven logs can answer their instructions.
pub open spec fn accepts(
    tree: ZkSyncTreeView,
    instructions: Seq<TreeInstruction<StorageKey>>,
    output: TreeOutput,
) -> bool {
    match output {
        TreeOutput::WithProofs(output) => tree.mode is Full && accepts_with_proofs(
            tree,
            instructions,
            output,
        ),
        TreeOutput::WithoutProofs(output) => tree.mode is Lightweight && output.leaf_count
            < u64::MAX,
    }
}

/// Selects the log entries that changed the tree.
fn filter_changes(logs: &[TreeLogEntryWithProof]) -> (res: Vec<TreeLogEntry>)
    ensures
        res@ == changes_of(logs@),
{
    let ghost f = |log: TreeLogEntryWithProof| change(log);
    let mut changes: Vec<TreeLogEntry> = Vec::new();
    assert(logs@.take(0).filter_map(f) =~= Seq::empty()) by {
        reveal(Seq::filter_map);
    }
    let mut i: usize = 0;
    while i < logs.len()
        invariant
            i <= logs@.len(),
            f == (|log: TreeLogEntryWithProof| change(log)),
            changes@ == logs@.take(i as int).filter_map(f),
        decreases logs@.len() - i,
    {
        proof {
            logs@.lemma_filter_map_take_succ(f, i as int);
        }
        let base = logs[i].base;
        if !base.is_read() {
            changes.push(base);
        }
        i += 1;
    }
    assert(logs@.take(i as int) =~= logs@);
    changes
}

impl View for ZkSyncTree {
    type V = ZkSyncTreeView;

    closed spec fn view(&self) -> ZkSyncTreeView {
        ZkSyncTreeView {
            db: self.db@,
            retained_version_count: self.retained_version_count as nat,
            unsaved_versions: self.unsaved_versions@,
            thread_pool: self.thread_pool,
            mode: self.mode,
            pruning_enabled: self.pruning_enabled,
        }
    }
}

impl ZkSyncTree {
    /// The database is well-formed, no more versions are retained than there are, and versions can
    /// be numbered.
    pub closed spec fn wf(&self) -> bool {
        &&& self.db.wf()
        &&& self@.is_consistent()
        &&& self@.versions().len() <= u64::MAX
    }

    /// Any tree that the methods lead to is consistent.
    pub proof fn lemma_wf_is_consistent(&self)
        requires
            self.wf(),
        ensures
            self@.is_consistent(),
    {
    }

    /// Creates a tree with the full processing mode.
    pub fn new(db: TreeDatabase) -> (res: Self)
        requires
            db.wf(),
        ensures
            res.wf(),
            res@ == ZkSyncTreeView::fresh(db@, TreeMode::Full),
    {
        Self::new_with_mode(db, TreeMode::Full)
    }

    /// Creates a tree with the lightweight processing mode.
    pub fn new_lightweight(db: TreeDatabase) -> (res: Self)
        requires
            db.wf(),
        ensures
            res.wf(),
            res@ == ZkSyncTreeView::fresh(db@, TreeMode::Lightweight),
    {
        Self::new_with_mode(db, TreeMode::Lightweight)
    }

    fn new_with_mode(db: TreeDatabase, mode: TreeMode) -> (res: Self)
        requires
            db.wf(),
        ensures
            res.wf(),
            res@ == ZkSyncTreeView::fresh(db@, mode),
    {
        let retained_version_count = db.version_count();
        ZkSyncTree {
            db,
            retained_version_count,
            unsaved_versions: Vec::new(),
            thread_pool: None,
            mode,
            pruning_enabled: false,
        }
    }

    /// Marks that the tree has a pruner from now on. It is unsound to run multiple pruners for the
    /// same tree concurrently, so there can be only one.
    pub fn pruner(&mut self)
        requires
            old(self).wf(),
            !old(self)@.pruning_enabled,
        ensures
            final(self).wf(),
            final(self)@ == (ZkSyncTreeView { pruning_enabled: true, ..old(self)@ }),
    {
        self.pruning_enabled = true;
    }

    /// Checks whether the tree has a pruner.
    pub fn is_pruning_enabled(&self) -> (res: bool)
        ensures
            res == self@.pruning_enabled,
    {
        self.pruning_enabled
    }

    /// Marks that the saved versions before the specified one have been removed by the pruner.
    pub fn mark_pruned(&mut self, first_retained_version: u64)
        requires
            old(self).wf(),
        ensures
            final(self).wf(),
            final(self)@ == old(self)@.after_pruning(first_retained_version as nat),
    {
        self.db.mark_pruned(first_retained_version);
    }

    /// Returns a readonly handle to the tree. The handle does not see uncommitted changes to the
    /// tree, only the saved ones. It can be kept while the tree changes.
    pub fn reader(&self) -> (res: ZkSyncTreeReader)
        requires
            self.wf(),
        ensures
            res@ == self@.db.empty_tree_hash(),
    {
        ZkSyncTreeReader::new(self.db.empty_subtree_hashes())
    }

    /// Returns the saved state of the tree, which readers read.
    pub fn database(&self) -> (res: &TreeDatabase)
        requires
            self.wf(),
        ensures
            res.wf(),
            res@ == self@.db,
    {
        &self.db
    }

    /// Sets the chunk size for multi-get operations. The requested keys are split into chunks of
    /// this size and requested in parallel. Setting chunk size to a large value (e.g.,
    /// `usize::MAX`) effectively disables parallelism.
    pub fn set_multi_get_chunk_size(&mut self, chunk_size: usize)
        requires
            old(self).wf(),
            chunk_size > 0,
        ensures
            final(self).wf(),
            final(self)@ == (ZkSyncTreeView {
                db: TreeDatabaseView { multi_get_chunk_size: chunk_size, ..old(self)@.db },
                ..old(self)@
            }),
    {
        self.db.set_multi_get_chunk_size(chunk_size);
    }

    /// Signals that the tree should use a dedicated thread pool for parallel operations.
    ///
    /// If `thread_count` is 0, the default number of threads is used. If the pool cannot be
    /// initialized, the tree stays as it was.
    pub fn use_dedicated_thread_pool(&mut self, thread_count: usize) -> (res: Result<
        (),
        ThreadPoolInitError,
    >)
        requires
            old(self).wf(),
        ensures
            final(self).wf(),
            match res {
                Ok(()) => {
                    &&& final(self)@.thread_pool matches Some(pool)
                    &&& is_pool_of(pool, thread_count)
                    &&& final(self)@ == (ZkSyncTreeView {
                        thread_pool: final(self)@.thread_pool,
                        ..old(self)@
                    })
                },
                Err(err) => err.thread_count == thread_count && final(self)@ == old(self)@,
            },
    {
        let pool = create_thread_pool(thread_count);
        self.set_dedicated_thread_pool(pool)
    }

    /// Makes the tree use a thread pool, if it has been created.
    pub fn set_dedicated_thread_pool(
        &mut self,
        pool: Result<ThreadPool, ThreadPoolInitError>,
    ) -> (res: Result<(), ThreadPoolInitError>)
        requires
            old(self).wf(),
        ensures
            final(self).wf(),
            match pool {
                Ok(pool) => {
                    &&& res is Ok
                    &&& final(self)@ == (ZkSyncTreeView { thread_pool: Some(pool), ..old(self)@ })
                },
                Err(err) => res == Err::<(), ThreadPoolInitError>(err) && final(self)@ == old(
                    self,
                )@,
            },
    {
        match pool {
            Ok(pool) => {
                self.thread_pool = Some(pool);
                Ok(())
            },
            Err(err) => Err(err),
        }
    }

    /// Returns the dedicated thread pool, if the tree uses one.
    pub fn thread_pool(&self) -> (res: Option<&ThreadPool>)
        ensures
            match res {
                Some(pool) => self@.thread_pool == Some(*pool),
                None => self@.thread_pool is None,
            },
    {
        self.thread_pool.as_ref()
    }

    /// Returns the root of the latest version, if it is available.
    fn latest_available_root(&self) -> (res: Option<TreeRoot>)
        requires
            self.wf(),
        ensures
            res == if self@.versions().len() > 0 {
                self@.versions().last()
            } else {
                None
            },
    {
        let unsaved_version_count = self.unsaved_versions.len();
        if unsaved_version_count > 0 {
            self.unsaved_versions[unsaved_version_count - 1]
        } else if self.retained_version_count > 0 {
            self.db.root(self.retained_version_count - 1)
        } else {
            None
        }
    }

    /// Returns the root of the latest version. A tree without versions, or with its latest root
    /// unavailable, counts as empty.
    fn latest_root(&self) -> (res: TreeRoot)
        requires
            self.wf(),
        ensures
            res == self@.latest_root(),
    {
        match self.latest_available_root() {
            Some(root) => root,
            None => TreeRoot {
                root_hash: self.db.empty_subtree_hashes().empty_tree_hash(),
                leaf_count: 0,
            },
        }
    }

    /// Returns the current root hash of this tree.
    pub fn root_hash(&self) -> (res: ValueHash)
        requires
            self.wf(),
        ensures
            res == self@.latest_root().root_hash,
    {
        self.latest_root().root_hash
    }

    /// Checks whether this tree is empty.
    pub fn is_empty(&self) -> (res: bool)
        requires
            self.wf(),
        ensures
            res == (self@.latest_root().leaf_count == 0),
    {
        match self.latest_available_root() {
            Some(root) => root.leaf_count == 0,
            None => true,
        }
    }

    /// Returns the number of versions of the tree, the unsaved ones included.
    pub fn version_count(&self) -> (res: u64)
        requires
            self.wf(),
        ensures
            res == self@.versions().len(),
    {
        self.retained_version_count as u64 + self.unsaved_versions.len() as u64
    }

    /// Returns the next L1 batch number that should be processed by the tree.
    pub fn next_l1_batch_number(&self) -> (res: L1BatchNumber)
        requires
            self.wf(),
            self@.versions().len() <= u32::MAX,
        ensures
            res.0 == self@.versions().len(),
    {
        batch_number_after(self.version_count())
    }

    /// Returns the writes of the genesis L1 batch. An in-memory tree extended with them gives the
    /// metadata of the batch; this does not create a persistent tree.
    pub fn process_genesis_batch(storage_logs: &[TreeInstruction<StorageKey>]) -> (res: Vec<
        TreeEntry<Key>,
    >)
        ensures
            res@ == writes_of(storage_logs@).map_values(|entry| hashed_entry(entry)),
    {
        let kvs = filter_write_instructions(storage_logs);
        hash_entry_keys(kvs.as_slice())
    }

    /// Requests a check of tree consistency. `l1_batch_number` specifies the version of the tree to
    /// be checked, expressed as the number of latest L1 batch applied to the tree.
    pub fn verify_consistency(&self, l1_batch_number: L1BatchNumber) -> (res: ConsistencyRequest)
        ensures
            res.version == l1_batch_number.0,
            res.validate_indices,
    {
        ConsistencyRequest { version: l1_batch_number.0 as u64, validate_indices: true }
    }

    /// Returns what the storage logs of a single L1 batch ask of the Merkle tree.
    pub fn prepare_l1_batch(&self, storage_logs: &[TreeInstruction<StorageKey>]) -> (res:
        TreeRequest)
        ensures
            match self@.mode {
                TreeMode::Full => {
                    &&& res matches TreeRequest::ExtendWithProofs(instructions)
                    &&& instructions@ == storage_logs@.map_values(
                        |instruction| hashed_instruction(instruction),
                    )
                },
                TreeMode::Lightweight => {
                    &&& res matches TreeRequest::Extend(entries)
                    &&& entries@ == writes_of(storage_logs@).map_values(
                        |entry| hashed_entry(entry),
                    )
                },
            },
    {
        match self.mode {
            TreeMode::Full => TreeRequest::ExtendWithProofs(hash_instruction_keys(storage_logs)),
            TreeMode::Lightweight => {
                let kvs = filter_write_instructions(storage_logs);
                TreeRequest::Extend(hash_entry_keys(kvs.as_slice()))
            },
        }
    }

    /// Checks whether the tree can process an answer of the Merkle tree to the storage logs of a
    /// single L1 batch.
    pub fn accepts_output(
        &self,
        storage_logs: &[TreeInstruction<StorageKey>],
        output: &TreeOutput,
    ) -> (res: bool)
        requires
            self.wf(),
        ensures
            res == accepts(self@, storage_logs@, *output),
    {
        match (self.mode, output) {
            (TreeMode::Full, TreeOutput::WithProofs(output)) => {
                self.latest_root().leaf_count < u64::MAX && output.leaf_count < u64::MAX
                    && are_answered(output.logs.as_slice(), storage_logs)
            },
            (TreeMode::Lightweight, TreeOutput::WithoutProofs(output)) => output.leaf_count
                < u64::MAX,
            _ => false,
        }
    }

    /// Processes storage logs comprising a single L1 batch, given the answer of the Merkle tree to
    /// [`Self::prepare_l1_batch()`].
    pub fn process_l1_batch(
        &mut self,
        storage_logs: &[TreeInstruction<StorageKey>],
        output: TreeOutput,
    ) -> (res: TreeMetadata)
        requires
            old(self).wf(),
            old(self)@.versions().len() <= u32::MAX,
            accepts(old(self)@, storage_logs@, output),
        ensures
            final(self).wf(),
            res@ == batch_metadata(old(self)@, storage_logs@, output),
            final(self)@ == old(self)@.with_version(
                TreeRoot { root_hash: res.root_hash, leaf_count: output.leaf_count() },
            ),
    {
        match output {
            TreeOutput::WithProofs(output) => self.process_l1_batch_full(storage_logs, output),
            TreeOutput::WithoutProofs(output) => self.process_l1_batch_lightweight(
                storage_logs,
                output,
            ),
        }
    }

    fn process_l1_batch_full(
        &mut self,
        instructions: &[TreeInstruction<StorageKey>],
        output: BlockOutputWithProofs,
    ) -> (res: TreeMetadata)
        requires
            old(self).wf(),
            old(self)@.versions().len() <= u32::MAX,
            accepts_with_proofs(old(self)@, instructions@, output),
        ensures
            final(self).wf(),
            res@ == full_metadata(old(self)@, instructions@, output),
            final(self)@ == old(self)@.with_version(
                TreeRoot { root_hash: res.root_hash, leaf_count: output.leaf_count },
            ),
    {
        let starting_root = self.latest_root();
        let witness = compose_witness(
            output.logs.as_slice(),
            instructions,
            self.db.empty_subtree_hashes(),
            starting_root.leaf_count + 1,
        );

        let root_hash = match output.root_hash() {
            Some(root_hash) => root_hash,
            None => starting_root.root_hash,
        };
        let logs = filter_changes(output.logs.as_slice());
        let kvs = filter_write_instructions(instructions);
        let (initial_writes, repeated_writes) = extract_writes(logs.as_slice(), kvs.as_slice());

        self.unsaved_versions.push(Some(TreeRoot { root_hash, leaf_count: output.leaf_count }));
        TreeMetadata {
            root_hash,
            rollup_last_leaf_index: output.leaf_count + 1,
            initial_writes,
            repeated_writes,
            witness: Some(witness),
        }
    }

    fn process_l1_batch_lightweight(
        &mut self,
        instructions: &[TreeInstruction<StorageKey>],
        output: BlockOutput,
    ) -> (res: TreeMetadata)
        requires
            old(self).wf(),
            old(self)@.versions().len() <= u32::MAX,
            output.leaf_count < u64::MAX,
        ensures
            final(self).wf(),
            res@ == lightweight_metadata(instructions@, output),
            final(self)@ == old(self)@.with_version(
                TreeRoot { root_hash: res.root_hash, leaf_count: output.leaf_count },
            ),
    {
        let kvs = filter_write_instructions(instructions);
        let (initial_writes, repeated_writes) = extract_writes(
            output.logs.as_slice(),
            kvs.as_slice(),
        );

        let root = TreeRoot { root_hash: output.root_hash, leaf_count: output.leaf_count };
        self.unsaved_versions.push(Some(root));
        TreeMetadata {
            root_hash: output.root_hash,
            rollup_last_leaf_index: output.leaf_count + 1,
            initial_writes,
            repeated_writes,
            witness: None,
        }
    }

    /// Reverts the tree to a previous state. Returns the number of versions that the Merkle tree
    /// should be truncated to once its unsaved changes are discarded.
    ///
    /// This method overwrites all unsaved changes in the tree.
    pub fn revert_logs(&mut self, last_l1_batch_to_keep: L1BatchNumber) -> (res: u64)
        requires
            old(self).wf(),
            last_l1_batch_to_keep.0 < u32::MAX,
        ensures
            final(self).wf(),
            res == last_l1_batch_to_keep.0 + 1,
            final(self)@ == old(self)@.after_revert(res as nat),
    {
        self.reset();
        let retained_version_count = (last_l1_batch_to_keep.0 + 1) as u64;
        if retained_version_count < self.retained_version_count as u64 {
            self.retained_version_count = retained_version_count as usize;
        }
        retained_version_count
    }

    /// Saves the accumulated changes in the tree to the database. Returns the numbers of L1 batches
    /// that are saved thereby, in the ascending order.
    pub fn save(&mut self) -> (res: Vec<u64>)
        requires
            old(self).wf(),
        ensures
            final(self).wf(),
            final(self)@ == old(self)@.after_save(),
            res@ == Seq::new(
                old(self)@.unsaved_versions.len(),
                |i: int| (old(self)@.retained_version_count + i) as u64,
            ),
    {
        let mut l1_batch_numbers: Vec<u64> = Vec::new();
        let first = self.retained_version_count as u64;
        let mut i: usize = 0;
        while i < self.unsaved_versions.len()
            invariant
                *self == *old(self),
                self.wf(),
                i <= self.unsaved_versions@.len(),
                first == self.retained_version_count,
                l1_batch_numbers@ == Seq::new(i as nat, |i: int| (first + i) as u64),
            decreases self.unsaved_versions@.len() - i,
        {
            l1_batch_numbers.push(first + i as u64);
            assert(l1_batch_numbers@ =~= Seq::new((i + 1) as nat, |i: int| (first + i) as u64));
            i += 1;
        }
        self.db.replace_versions(self.retained_version_count, &mut self.unsaved_versions);
        self.retained_version_count = self.db.version_count();
        l1_batch_numbers
    }

    /// Resets the tree to the latest database state.
    pub fn reset(&mut self)
        requires
            old(self).wf(),
        ensures
            final(self).wf(),
            final(self)@ == old(self)@.after_reset(),
    {
        self.unsaved_versions.clear();
        self.retained_version_count = self.db.version_count();
    }
}

} // verus!
