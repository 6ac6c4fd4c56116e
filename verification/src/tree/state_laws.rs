//! What the operations of the tree do to its versions, and what the tree makes of a batch.

use rayon::ThreadPool;
use vstd::prelude::*;

use crate::decimal::{decimal, is_decimal_of, law_decimal_notation_is_read_back};
use crate::tree::contents::{
    after_instructions, holds, is_faithful, law_batch_applies_writes, written_keys, Contents,
    RootHashing,
};
use crate::tree::database::{
    batch_number_after, EntriesRequest, NoVersionError, TreeDatabase, TreeDatabaseView, TreeRoot,
    ZkSyncTreeReader,
};
use crate::tree::domain::{
    accepts_with_proofs, change, changes_of, ConsistencyRequest, TreeMetadata, TreeMode, TreeOutput, ZkSyncTree,
    ZkSyncTreeView,
};
use crate::tree::entries::{
    filter_write_instructions, writes_of, StorageKey, TreeEntry, TreeInstruction, TreeLogEntry,
    TreeLogEntryWithProof,
};
use crate::tree::history::{
    after_operations, all_instructions, are_faithful_operations, law_tree_holds_remaining_batches,
    remaining_batches, TreeOperation,
};
use crate::tree::laws::lemma_filter_map_push;
use crate::tree::thread_pool::{
    create_thread_pool, pool_thread_count, pool_thread_name, worker_name, worker_thread_name,
    ThreadPoolInitError,
};
use crate::tree::witness::{
    are_answered, compose_witness, is_answered, EmptySubtreeHashes, PrepareBasicCircuitsJob,
};
use crate::tree::witness_laws::law_answers_are_recognized;
use crate::tree::writes::{extract_writes, paired, InitialStorageWrite, RepeatedStorageWrite};
use crate::types::{Key, L1BatchNumber, ValueHash};

verus! {

/// Number of versions of a tree: those of the saved ones that it builds on, and the unsaved ones.
pub open spec fn number_of_versions(tree: ZkSyncTreeView) -> nat {
    tree.retained_version_count + tree.unsaved_versions.len()
}

/// Root of a version of a tree: the first versions are saved ones, and the unsaved ones follow.
pub open spec fn root_of_version(tree: ZkSyncTreeView, version: int) -> Option<TreeRoot> {
    if version < tree.retained_version_count {
        tree.db.versions[version]
    } else {
        tree.unsaved_versions[version - tree.retained_version_count]
    }
}

/// Number of leaves in the latest version of a tree. There are none without versions.
pub open spec fn number_of_leaves(tree: ZkSyncTreeView) -> u64 {
    if number_of_versions(tree) == 0 {
        0
    } else {
        match root_of_version(tree, number_of_versions(tree) - 1) {
            Some(root) => root.leaf_count,
            None => 0,
        }
    }
}

/// Root hash of the latest version of a tree. Without versions, it is that of a tree without leaves.
pub open spec fn hash_of_root(tree: ZkSyncTreeView) -> ValueHash {
    let empty_tree_hash = tree.db.empty_subtree_hashes[256];
    if number_of_versions(tree) == 0 {
        empty_tree_hash
    } else {
        match root_of_version(tree, number_of_versions(tree) - 1) {
            Some(root) => root.root_hash,
            None => empty_tree_hash,
        }
    }
}

/// Whether two states of a tree have the same settings.
pub open spec fn have_same_settings(before: ZkSyncTreeView, after: ZkSyncTreeView) -> bool {
    &&& after.mode == before.mode
    &&& after.thread_pool == before.thread_pool
    &&& after.pruning_enabled == before.pruning_enabled
    &&& after.db.empty_subtree_hashes == before.db.empty_subtree_hashes
    &&& after.db.multi_get_chunk_size == before.db.multi_get_chunk_size
}

/// Whether two states of a tree have the same versions, both saved and unsaved.
pub open spec fn have_same_versions(before: ZkSyncTreeView, after: ZkSyncTreeView) -> bool {
    &&& after.db.versions == before.db.versions
    &&& after.retained_version_count == before.retained_version_count
    &&& after.unsaved_versions == before.unsaved_versions
}

/// An opened tree builds on all saved versions, and has no unsaved ones.
pub proof fn law_opened_tree_has_saved_versions(
    db: TreeDatabase,
    full: ZkSyncTree,
    lightweight: ZkSyncTree,
)
    requires
        call_ensures(ZkSyncTree::new, (db,), full),
        call_ensures(ZkSyncTree::new_lightweight, (db,), lightweight),
    ensures
        full@.mode is Full,
        lightweight@.mode is Lightweight,
        full@.db == db@,
        lightweight@.db == db@,
        number_of_versions(full@) == db@.versions.len(),
        number_of_versions(lightweight@) == db@.versions.len(),
        full@.unsaved_versions.len() == 0,
        lightweight@.unsaved_versions.len() == 0,
        full@.thread_pool is None,
        lightweight@.thread_pool is None,
        !full@.pruning_enabled,
        !lightweight@.pruning_enabled,
{
}

/// The root hash and the emptiness of a tree are those of its latest version, which is unsaved if there
/// are unsaved ones, and the last retained one otherwise.
pub proof fn law_tree_shows_latest_version(
    tree: &ZkSyncTree,
    root_hash: ValueHash,
    is_empty: bool,
)
    requires
        tree@.retained_version_count <= tree@.db.versions.len(),
        call_ensures(ZkSyncTree::root_hash, (tree,), root_hash),
        call_ensures(ZkSyncTree::is_empty, (tree,), is_empty),
    ensures
        root_hash == hash_of_root(tree@),
        is_empty <==> number_of_leaves(tree@) == 0,
{
    lemma_versions(tree@);
}

/// All versions of a tree are counted, saved and unsaved ones alike.
pub proof fn law_tree_counts_versions(tree: &ZkSyncTree, version_count: u64)
    requires
        tree@.retained_version_count <= tree@.db.versions.len(),
        call_ensures(ZkSyncTree::version_count, (tree,), version_count),
    ensures
        version_count == number_of_versions(tree@),
{
    lemma_versions(tree@);
}

/// A tree expects the batch after those that its versions are for.
pub proof fn law_tree_expects_batch_after_versions(tree: &ZkSyncTree, next: L1BatchNumber)
    requires
        tree@.retained_version_count <= tree@.db.versions.len(),
        call_ensures(ZkSyncTree::next_l1_batch_number, (tree,), next),
    ensures
        next.0 == number_of_versions(tree@),
{
    lemma_versions(tree@);
}

/// The versions of a tree, one by one.
proof fn lemma_versions(tree: ZkSyncTreeView)
    requires
        tree.retained_version_count <= tree.db.versions.len(),
    ensures
        tree.versions().len() == number_of_versions(tree),
        forall|i: int|
            0 <= i < number_of_versions(tree) ==> #[trigger] tree.versions()[i] == root_of_version(
                tree,
                i,
            ),
        tree.latest_root().leaf_count == number_of_leaves(tree),
        tree.latest_root().root_hash == hash_of_root(tree),
{
    assert(tree.versions().len() == number_of_versions(tree));
    if number_of_versions(tree) > 0 {
        let last = number_of_versions(tree) - 1;
        assert(tree.versions()[last] == root_of_version(tree, last));
    }
}

/// Converting a number of versions to a batch number keeps the number.
pub proof fn law_batches_are_numbered_by_versions(version_count: u64, next: L1BatchNumber)
    requires
        call_ensures(batch_number_after, (version_count,), next),
    ensures
        next.0 == version_count,
{
}

/// A reader shows the latest saved version, or an empty tree if there is none.
pub proof fn law_reader_shows_latest_saved_version(
    tree: &ZkSyncTree,
    reader: ZkSyncTreeReader,
    db: &TreeDatabase,
    root_hash: ValueHash,
    leaf_count: u64,
)
    requires
        call_ensures(ZkSyncTree::reader, (tree,), reader),
        call_ensures(ZkSyncTreeReader::root_hash, (&reader, db), root_hash),
        call_ensures(ZkSyncTreeReader::leaf_count, (&reader, db), leaf_count),
    ensures
        db@.versions.len() > 0 && db@.versions[db@.versions.len() - 1] is Some ==> {
            let root = db@.versions[db@.versions.len() - 1]->0;
            &&& root_hash == root.root_hash
            &&& leaf_count == root.leaf_count
        },
        db@.versions.len() == 0 || db@.versions[db@.versions.len() - 1] is None ==> {
            &&& root_hash == tree@.db.empty_subtree_hashes[256]
            &&& leaf_count == 0
        },
{
}

/// A reader expects the batch after those that the saved versions are for.
pub proof fn law_reader_expects_batch_after_saved_versions(
    reader: &ZkSyncTreeReader,
    db: &TreeDatabase,
    next: L1BatchNumber,
)
    requires
        call_ensures(ZkSyncTreeReader::next_l1_batch_number, (reader, db), next),
    ensures
        next.0 == db@.versions.len(),
{
}

/// A reader of a table of empty subtrees shows its root hash for an empty tree.
pub proof fn law_reader_knows_empty_tree(
    empty_subtree_hashes: &EmptySubtreeHashes,
    reader: ZkSyncTreeReader,
)
    requires
        call_ensures(ZkSyncTreeReader::new, (empty_subtree_hashes,), reader),
    ensures
        reader@ == empty_subtree_hashes@[256],
{
}

/// Entries are requested, with the same keys in the same order, from the version with the number of the
/// batch, as long as the version is saved and available. Otherwise the error names the version.
pub proof fn law_entries_are_requested_from_batch(
    reader: &ZkSyncTreeReader,
    db: &TreeDatabase,
    l1_batch_number: L1BatchNumber,
    keys: &[Key],
    res: Result<EntriesRequest, NoVersionError>,
)
    requires
        call_ensures(
            ZkSyncTreeReader::entries_with_proofs,
            (reader, db, l1_batch_number, keys),
            res,
        ),
    ensures
        res is Ok <==> l1_batch_number.0 < db@.versions.len()
            && db@.versions[l1_batch_number.0 as int] is Some,
        res matches Ok(request) ==> {
            &&& request.version == l1_batch_number.0
            &&& request.keys@.len() == keys@.len()
            &&& forall|i: int| 0 <= i < keys@.len() ==> #[trigger] request.keys@[i] == keys@[i]
        },
        res matches Err(err) ==> {
            &&& err.missing_version == l1_batch_number.0
            &&& err.version_count == db@.versions.len()
        },
{
}

/// The saved state is what a tree holds of the database.
pub proof fn law_saved_state_is_shown(tree: &ZkSyncTree, db: &TreeDatabase)
    requires
        call_ensures(ZkSyncTree::database, (tree,), db),
    ensures
        db@ == tree@.db,
{
}

/// A database holds the versions, the hashes and the chunk size that it is described with.
pub proof fn law_database_is_as_described(
    versions: Vec<Option<TreeRoot>>,
    empty_subtree_hashes: EmptySubtreeHashes,
    chunk_size: usize,
    db: TreeDatabase,
    version: usize,
    root: Option<TreeRoot>,
    version_count: usize,
    actual_chunk_size: usize,
    actual_hashes: &EmptySubtreeHashes,
)
    requires
        call_ensures(TreeDatabase::new, (versions, empty_subtree_hashes, chunk_size), db),
        call_ensures(TreeDatabase::root, (&db, version), root),
        call_ensures(TreeDatabase::version_count, (&db,), version_count),
        call_ensures(TreeDatabase::multi_get_chunk_size, (&db,), actual_chunk_size),
        call_ensures(TreeDatabase::empty_subtree_hashes, (&db,), actual_hashes),
    ensures
        version_count == versions@.len(),
        root == versions@[version as int],
        actual_chunk_size == chunk_size,
        actual_hashes@ == empty_subtree_hashes@,
        db@.empty_tree_hash() == empty_subtree_hashes@[256],
{
}

/// Setting the chunk size of a database changes nothing else.
pub proof fn law_database_chunk_size_is_set(db: &mut TreeDatabase, chunk_size: usize)
    requires
        call_ensures(TreeDatabase::set_multi_get_chunk_size, (db, chunk_size), ()),
    ensures
        final(db)@.multi_get_chunk_size == chunk_size,
        final(db)@.versions == old(db)@.versions,
        final(db)@.empty_subtree_hashes == old(db)@.empty_subtree_hashes,
{
}

/// Removing versions from a database makes those before the first retained one unavailable, and keeps
/// all others under their numbers.
pub proof fn law_database_is_pruned(db: &mut TreeDatabase, first_retained_version: u64)
    requires
        call_ensures(TreeDatabase::mark_pruned, (db, first_retained_version), ()),
    ensures
        final(db)@.versions.len() == old(db)@.versions.len(),
        forall|i: int|
            0 <= i < old(db)@.versions.len() ==> #[trigger] final(db)@.versions[i] == if i
                < first_retained_version {
                None
            } else {
                old(db)@.versions[i]
            },
        final(db)@.empty_subtree_hashes == old(db)@.empty_subtree_hashes,
        final(db)@.multi_get_chunk_size == old(db)@.multi_get_chunk_size,
{
}

/// Replacing versions of a database keeps the retained ones, and moves the new ones after them.
pub proof fn law_database_versions_are_replaced(
    db: &mut TreeDatabase,
    retained_version_count: usize,
    new_versions: &mut Vec<Option<TreeRoot>>,
)
    requires
        call_ensures(
            TreeDatabase::replace_versions,
            (db, retained_version_count, new_versions),
            (),
        ),
        retained_version_count <= old(db)@.versions.len(),
    ensures
        final(new_versions)@.len() == 0,
        final(db)@.versions.len() == retained_version_count + old(new_versions)@.len(),
        forall|i: int|
            0 <= i < final(db)@.versions.len() ==> #[trigger] final(db)@.versions[i] == if i
                < retained_version_count {
                old(db)@.versions[i]
            } else {
                old(new_versions)@[i - retained_version_count]
            },
        final(db)@.empty_subtree_hashes == old(db)@.empty_subtree_hashes,
        final(db)@.multi_get_chunk_size == old(db)@.multi_get_chunk_size,
{
}

/// Obtaining a pruner is remembered, and changes nothing else.
pub proof fn law_pruner_is_remembered(
    tree: &mut ZkSyncTree,
    other_tree: &ZkSyncTree,
    is_pruning_enabled: bool,
)
    requires
        call_ensures(ZkSyncTree::pruner, (tree,), ()),
        call_ensures(ZkSyncTree::is_pruning_enabled, (other_tree,), is_pruning_enabled),
    ensures
        is_pruning_enabled == other_tree@.pruning_enabled,
        final(tree)@.pruning_enabled,
        have_same_versions(old(tree)@, final(tree)@),
        have_same_settings(
            ZkSyncTreeView { pruning_enabled: true, ..old(tree)@ },
            final(tree)@,
        ),
{
}

/// Pruning makes saved versions before the first retained one unavailable, and keeps everything else.
pub proof fn law_tree_is_pruned(tree: &mut ZkSyncTree, first_retained_version: u64)
    requires
        call_ensures(ZkSyncTree::mark_pruned, (tree, first_retained_version), ()),
    ensures
        have_same_settings(old(tree)@, final(tree)@),
        final(tree)@.retained_version_count == old(tree)@.retained_version_count,
        final(tree)@.unsaved_versions == old(tree)@.unsaved_versions,
        final(tree)@.db.versions.len() == old(tree)@.db.versions.len(),
        forall|i: int|
            0 <= i < old(tree)@.db.versions.len() ==> #[trigger] final(tree)@.db.versions[i] == if i
                < first_retained_version {
                None
            } else {
                old(tree)@.db.versions[i]
            },
{
}

/// Setting the chunk size of a tree changes nothing else.
pub proof fn law_chunk_size_is_set(tree: &mut ZkSyncTree, chunk_size: usize)
    requires
        call_ensures(ZkSyncTree::set_multi_get_chunk_size, (tree, chunk_size), ()),
    ensures
        final(tree)@.db.multi_get_chunk_size == chunk_size,
        have_same_versions(old(tree)@, final(tree)@),
        final(tree)@.mode == old(tree)@.mode,
        final(tree)@.thread_pool == old(tree)@.thread_pool,
        final(tree)@.pruning_enabled == old(tree)@.pruning_enabled,
        final(tree)@.db.empty_subtree_hashes == old(tree)@.db.empty_subtree_hashes,
{
}

/// The name of a worker thread is the name of the tree and the index of the thread.
pub open spec fn is_name_of_worker(name: Seq<char>, index: int) -> bool {
    &&& name.len() > 16
    &&& name.take(16) == seq![
        'n', 'e', 'w', '-', 'm', 'e', 'r', 'k', 'l', 'e', '-', 't', 'r', 'e', 'e', '-',
    ]
    &&& is_decimal_of(name.skip(16), index)
}

/// Worker threads are named by their indexes.
pub proof fn law_worker_is_named_by_index(index: usize, name: String)
    requires
        call_ensures(worker_thread_name, (index,), name),
    ensures
        is_name_of_worker(name@, index as int),
{
    lemma_worker_name(index as nat);
}

/// The name of a worker thread with the specified index.
proof fn lemma_worker_name(index: nat)
    ensures
        is_name_of_worker(worker_name(index), index as int),
{
    reveal_strlit("new-merkle-tree-");
    law_decimal_notation_is_read_back(index);
    let name = worker_name(index);
    assert(name.skip(16) =~= decimal(index));
    assert(name.take(16) =~= seq![
        'n', 'e', 'w', '-', 'm', 'e', 'r', 'k', 'l', 'e', '-', 't', 'r', 'e', 'e', '-',
    ]);
}

/// Whether a pool has the requested number of threads, cut to the maximum for the platform; or at least
/// one if the default number is requested. The threads are named by their indexes.
pub open spec fn has_requested_threads(pool: ThreadPool, thread_count: usize) -> bool {
    &&& pool_thread_count(pool) >= 1
    &&& 0 < thread_count <= 255 ==> pool_thread_count(pool) == thread_count
    &&& usize::BITS == 64 && 0 < thread_count <= 65_535 ==> pool_thread_count(pool) == thread_count
    &&& usize::BITS == 64 && thread_count > 65_535 ==> pool_thread_count(pool) == 65_535
    &&& usize::BITS != 64 && thread_count > 255 ==> pool_thread_count(pool) == 255
    &&& forall|index: nat|
        index < pool_thread_count(pool) ==> is_name_of_worker(
            #[trigger] pool_thread_name(pool, index),
            index as int,
        )
}

/// A created pool has the requested threads. An error tells how many were requested.
pub proof fn law_created_pool_has_requested_threads(
    thread_count: usize,
    res: Result<ThreadPool, ThreadPoolInitError>,
)
    requires
        call_ensures(create_thread_pool, (thread_count,), res),
    ensures
        res matches Ok(pool) ==> has_requested_threads(pool, thread_count),
        res matches Err(err) ==> err.thread_count == thread_count,
{
    if let Ok(pool) = res {
        assert forall|index: nat| index < pool_thread_count(pool) implies is_name_of_worker(
            #[trigger] pool_thread_name(pool, index),
            index as int,
        ) by {
            lemma_worker_name(index);
        }
    }
}

/// A tree uses the pool that it is given, and nothing else changes. Without a pool, it stays as it was.
pub proof fn law_given_pool_is_used(
    tree: &mut ZkSyncTree,
    pool: Result<ThreadPool, ThreadPoolInitError>,
    res: Result<(), ThreadPoolInitError>,
)
    requires
        call_ensures(ZkSyncTree::set_dedicated_thread_pool, (tree, pool), res),
    ensures
        have_same_versions(old(tree)@, final(tree)@),
        res is Ok <==> pool is Ok,
        pool matches Ok(pool) ==> {
            &&& final(tree)@.thread_pool == Some(pool)
            &&& have_same_settings(
                ZkSyncTreeView { thread_pool: Some(pool), ..old(tree)@ },
                final(tree)@,
            )
        },
        pool matches Err(err) ==> {
            &&& res matches Err(returned) && returned == err
            &&& have_same_settings(old(tree)@, final(tree)@)
        },
{
}

/// A tree that is told to use a dedicated pool uses one with the requested threads, unless the pool
/// cannot be created; then it stays as it was.
pub proof fn law_requested_pool_is_used(
    tree: &mut ZkSyncTree,
    thread_count: usize,
    res: Result<(), ThreadPoolInitError>,
)
    requires
        call_ensures(ZkSyncTree::use_dedicated_thread_pool, (tree, thread_count), res),
    ensures
        have_same_versions(old(tree)@, final(tree)@),
        res is Ok ==> {
            &&& final(tree)@.thread_pool matches Some(pool)
            &&& has_requested_threads(pool, thread_count)
            &&& have_same_settings(
                ZkSyncTreeView { thread_pool: final(tree)@.thread_pool, ..old(tree)@ },
                final(tree)@,
            )
        },
        res matches Err(err) ==> {
            &&& err.thread_count == thread_count
            &&& have_same_settings(old(tree)@, final(tree)@)
        },
{
    if res is Ok {
        let pool = final(tree)@.thread_pool->0;
        assert forall|index: nat| index < pool_thread_count(pool) implies is_name_of_worker(
            #[trigger] pool_thread_name(pool, index),
            index as int,
        ) by {
            lemma_worker_name(index);
        }
    }
}

/// A tree shows the dedicated pool that it uses.
pub proof fn law_used_pool_is_shown(tree: &ZkSyncTree, pool: Option<&ThreadPool>)
    requires
        call_ensures(ZkSyncTree::thread_pool, (tree,), pool),
    ensures
        pool is Some <==> tree@.thread_pool is Some,
        pool matches Some(pool) ==> tree@.thread_pool == Some(*pool),
{
}

/// The version of a batch is checked together with the enumeration indexes of leaves.
pub proof fn law_consistency_is_checked_for_batch(
    tree: &ZkSyncTree,
    l1_batch_number: L1BatchNumber,
    request: ConsistencyRequest,
)
    requires
        call_ensures(ZkSyncTree::verify_consistency, (tree, l1_batch_number), request),
    ensures
        request.version == l1_batch_number.0,
        request.validate_indices,
{
}

/// Reverting keeps the saved versions up to the specified batch and no others, discards unsaved ones,
/// and does not change the saved state. The number of versions to truncate to is returned.
pub proof fn law_revert_keeps_batches_up_to(
    tree: &mut ZkSyncTree,
    last_l1_batch_to_keep: L1BatchNumber,
    retained_version_count: u64,
)
    requires
        call_ensures(
            ZkSyncTree::revert_logs,
            (tree, last_l1_batch_to_keep),
            retained_version_count,
        ),
    ensures
        retained_version_count == last_l1_batch_to_keep.0 + 1,
        have_same_settings(old(tree)@, final(tree)@),
        final(tree)@.db.versions == old(tree)@.db.versions,
        final(tree)@.unsaved_versions.len() == 0,
        number_of_versions(final(tree)@) <= old(tree)@.db.versions.len(),
        last_l1_batch_to_keep.0 < old(tree)@.db.versions.len() ==> number_of_versions(final(tree)@)
            == last_l1_batch_to_keep.0 + 1,
        last_l1_batch_to_keep.0 >= old(tree)@.db.versions.len() ==> number_of_versions(
            final(tree)@,
        ) == old(tree)@.db.versions.len(),
{
}

/// Resetting discards unsaved versions and reverts, and does not change the saved state.
pub proof fn law_reset_returns_to_saved_state(tree: &mut ZkSyncTree)
    requires
        call_ensures(ZkSyncTree::reset, (tree,), ()),
    ensures
        have_same_settings(old(tree)@, final(tree)@),
        final(tree)@.db.versions == old(tree)@.db.versions,
        final(tree)@.unsaved_versions.len() == 0,
        number_of_versions(final(tree)@) == old(tree)@.db.versions.len(),
{
}

/// Saving makes the versions of the tree the saved ones, and keeps them. The numbers of the batches that
/// have not been saved before are returned in order.
pub proof fn law_save_keeps_versions(
    tree: &mut ZkSyncTree,
    l1_batch_numbers: Vec<u64>,
)
    requires
        call_ensures(ZkSyncTree::save, (tree,), l1_batch_numbers),
        old(tree)@.retained_version_count <= old(tree)@.db.versions.len(),
        number_of_versions(old(tree)@) <= u64::MAX,
    ensures
        have_same_settings(old(tree)@, final(tree)@),
        final(tree)@.unsaved_versions.len() == 0,
        final(tree)@.db.versions.len() == number_of_versions(old(tree)@),
        number_of_versions(final(tree)@) == number_of_versions(old(tree)@),
        forall|i: int|
            0 <= i < number_of_versions(old(tree)@) ==> #[trigger] final(tree)@.db.versions[i]
                == root_of_version(old(tree)@, i),
        l1_batch_numbers@.len() == old(tree)@.unsaved_versions.len(),
        forall|i: int|
            0 <= i < l1_batch_numbers@.len() ==> #[trigger] l1_batch_numbers@[i] == old(
                tree,
            )@.retained_version_count + i,
{
    lemma_versions(old(tree)@);
}

/// Number of leaves that an output reports.
pub open spec fn reported_leaves(output: TreeOutput) -> u64 {
    match output {
        TreeOutput::WithProofs(output) => output.leaf_count,
        TreeOutput::WithoutProofs(output) => output.leaf_count,
    }
}

/// An output is accepted if and only if it is of the kind that the mode asks for, the indexes of the
/// leaves before and after the batch fit in 64 bits, and its logs can answer the storage logs.
pub proof fn law_accepted_outputs(
    tree: &ZkSyncTree,
    storage_logs: &[TreeInstruction<StorageKey>],
    output: &TreeOutput,
    logs: &[TreeLogEntryWithProof],
    answered: bool,
    accepted: bool,
)
    requires
        tree@.retained_version_count <= tree@.db.versions.len(),
        call_ensures(ZkSyncTree::accepts_output, (tree, storage_logs, output), accepted),
        call_ensures(are_answered, (logs, storage_logs), answered),
        *output matches TreeOutput::WithProofs(proven) ==> logs@ == proven.logs@,
    ensures
        *output is WithoutProofs ==> (accepted <==> tree@.mode is Lightweight && reported_leaves(
            *output,
        ) < u64::MAX),
        *output is WithProofs ==> (accepted <==> {
            &&& tree@.mode is Full
            &&& number_of_leaves(tree@) < u64::MAX
            &&& reported_leaves(*output) < u64::MAX
            &&& answered
        }),
{
    lemma_versions(tree@);
    if let TreeOutput::WithProofs(proven) = *output {
        let pairs = paired(proven.logs@, storage_logs@);
        law_answers_are_recognized(logs, storage_logs, answered);
        if answered {
            assert forall|i: int| 0 <= i < pairs.len() implies is_answered(#[trigger] pairs[i]) by {
                assert(logs@[i].merkle_path@.len() <= 256);
            }
        } else {
            let i = choose|i: int|
                0 <= i < logs@.len() && i < storage_logs@.len() && !({
                    &&& (#[trigger] logs@[i]).merkle_path@.len() <= 256
                    &&& storage_logs@[i] is Read ==> logs@[i].base is Read
                        || logs@[i].base is ReadMissingKey
                });
            assert(!is_answered(pairs[i]));
        }
        assert(accepted == (tree@.mode is Full && accepts_with_proofs(
            tree@,
            storage_logs@,
            proven,
        )));
    }
}

/// A batch adds a single unsaved version, with the root hash of its metadata and the number of leaves
/// that the Merkle tree has reported; nothing else changes. The metadata tells the index after the last
/// leaf, and the root hash that the Merkle tree has given; in the full mode, without logs, the root hash
/// stays. There is a witness in the full mode alone, and it starts with the index after the last leaf
/// before the batch.
pub proof fn law_batch_adds_version(
    tree: &mut ZkSyncTree,
    storage_logs: &[TreeInstruction<StorageKey>],
    output: TreeOutput,
    metadata: TreeMetadata,
)
    requires
        old(tree)@.retained_version_count <= old(tree)@.db.versions.len(),
        call_ensures(ZkSyncTree::process_l1_batch, (tree, storage_logs, output), metadata),
    ensures
        have_same_settings(old(tree)@, final(tree)@),
        final(tree)@.db.versions == old(tree)@.db.versions,
        final(tree)@.retained_version_count == old(tree)@.retained_version_count,
        number_of_versions(final(tree)@) == number_of_versions(old(tree)@) + 1,
        forall|i: int|
            0 <= i < number_of_versions(old(tree)@) ==> root_of_version(final(tree)@, i)
                == #[trigger] root_of_version(old(tree)@, i),
        hash_of_root(final(tree)@) == metadata.root_hash,
        number_of_leaves(final(tree)@) == reported_leaves(output),
        metadata.rollup_last_leaf_index == reported_leaves(output) + 1,
        output matches TreeOutput::WithoutProofs(output) ==> {
            &&& metadata.root_hash == output.root_hash
            &&& metadata.witness is None
        },
        output matches TreeOutput::WithProofs(output) ==> {
            &&& metadata.root_hash == if output.logs@.len() > 0 {
                output.logs@[output.logs@.len() - 1].root_hash
            } else {
                hash_of_root(old(tree)@)
            }
            &&& metadata.witness matches Some(witness)
            &&& number_of_leaves(old(tree)@) < u64::MAX ==> witness.next_enumeration_index
                == number_of_leaves(old(tree)@) + 1
        },
{
    lemma_versions(old(tree)@);
    assert(final(tree)@.unsaved_versions.drop_last() =~= old(tree)@.unsaved_versions);
    if output is WithProofs {
        assert(metadata@.witness == Some(metadata.witness->0@));
    }
}

/// What the Merkle tree did on the instructions that have changed it.
pub open spec fn changing_logs(logs: Seq<TreeLogEntryWithProof>) -> Seq<TreeLogEntry>
    decreases logs.len(),
{
    if logs.len() == 0 {
        Seq::empty()
    } else {
        let rest = changing_logs(logs.drop_last());
        match logs.last().base {
            TreeLogEntry::Inserted | TreeLogEntry::Updated { .. } => rest.push(logs.last().base),
            TreeLogEntry::Read { .. } | TreeLogEntry::ReadMissingKey => rest,
        }
    }
}

/// Selecting the changes among logs.
proof fn lemma_changing_logs(logs: Seq<TreeLogEntryWithProof>)
    ensures
        changes_of(logs) == changing_logs(logs),
    decreases logs.len(),
{
    if logs.len() == 0 {
        assert(changes_of(logs) =~= Seq::empty());
    } else {
        lemma_changing_logs(logs.drop_last());
        assert(logs =~= logs.drop_last().push(logs.last()));
        lemma_filter_map_push(
            logs.drop_last(),
            |log: TreeLogEntryWithProof| change(log),
            logs.last(),
        );
    }
}

/// The initial and repeated writes of a batch are those that are extracted from its writes and from what
/// the Merkle tree did on them. In the full mode, logs of reads are left out for that.
pub proof fn law_batch_reports_extracted_writes(
    tree: &mut ZkSyncTree,
    storage_logs: &[TreeInstruction<StorageKey>],
    output: TreeOutput,
    metadata: TreeMetadata,
    logs: &[TreeLogEntry],
    entries: &[TreeEntry<StorageKey>],
    writes: Vec<TreeEntry<StorageKey>>,
    extracted: (Vec<InitialStorageWrite>, Vec<RepeatedStorageWrite>),
)
    requires
        call_ensures(ZkSyncTree::process_l1_batch, (tree, storage_logs, output), metadata),
        call_ensures(filter_write_instructions, (storage_logs,), writes),
        entries@ == writes@,
        logs@ == match output {
            TreeOutput::WithProofs(output) => changing_logs(output.logs@),
            TreeOutput::WithoutProofs(output) => output.logs@,
        },
        call_ensures(extract_writes, (logs, entries), extracted),
    ensures
        metadata.initial_writes@ == extracted.0@,
        metadata.repeated_writes@ == extracted.1@,
{
    if let TreeOutput::WithProofs(output) = output {
        lemma_changing_logs(output.logs@);
    }
    assert(metadata@.initial_writes == metadata.initial_writes@);
    assert(metadata@.repeated_writes == metadata.repeated_writes@);
}

/// The witness of a batch in the full mode is composed of its storage logs and of the logs that answer
/// them, with the hashes of empty subtrees of the tree.
pub proof fn law_batch_reports_composed_witness(
    tree: &mut ZkSyncTree,
    storage_logs: &[TreeInstruction<StorageKey>],
    output: TreeOutput,
    metadata: TreeMetadata,
    logs: &[TreeLogEntryWithProof],
    empty: &EmptySubtreeHashes,
    next_enumeration_index: u64,
    witness: PrepareBasicCircuitsJob,
)
    requires
        call_ensures(ZkSyncTree::process_l1_batch, (tree, storage_logs, output), metadata),
        output matches TreeOutput::WithProofs(proven) && logs@ == proven.logs@,
        empty@ == old(tree)@.db.empty_subtree_hashes,
        call_ensures(
            compose_witness,
            (logs, storage_logs, empty, next_enumeration_index),
            witness,
        ),
    ensures
        metadata.witness matches Some(reported) && reported@.logs == witness@.logs,
{
    assert(metadata@.witness == Some(metadata.witness->0@));
}

/// The witness starts with the index after the leaves that the tree holds before the batch, and the
/// initial writes of the batch take the indexes from there on, up to the one reported for the next leaf.
/// This holds for every tree, whatever operations have led to it.
pub proof fn law_initial_writes_take_next_indexes(
    tree: &mut ZkSyncTree,
    root_of: RootHashing,
    contents: Contents,
    storage_logs: &[TreeInstruction<StorageKey>],
    output: TreeOutput,
    metadata: TreeMetadata,
)
    requires
        old(tree)@.retained_version_count <= old(tree)@.db.versions.len(),
        holds(old(tree)@, root_of, contents),
        is_faithful(contents, root_of, storage_logs@, output),
        call_ensures(ZkSyncTree::process_l1_batch, (tree, storage_logs, output), metadata),
    ensures
        metadata.rollup_last_leaf_index == contents.len() + 1 + metadata.initial_writes@.len(),
        metadata.rollup_last_leaf_index == after_instructions(contents, storage_logs@).len() + 1,
        output is WithProofs && contents.len() < u64::MAX ==> {
            &&& metadata.witness matches Some(witness)
            &&& witness.next_enumeration_index == contents.len() + 1
            &&& metadata.rollup_last_leaf_index == witness.next_enumeration_index
                + metadata.initial_writes@.len()
        },
{
    law_batch_applies_writes(old(tree)@, root_of, contents, storage_logs@, output);
    law_batch_adds_version(tree, storage_logs, output, metadata);
    lemma_versions(old(tree)@);
    assert(metadata@.initial_writes == metadata.initial_writes@);
}

/// Whatever batches, saves, reverts and resets a tree has gone through, the witness of its next batch
/// starts with the index after the distinct keys among the writes of the batches that remain.
pub proof fn law_witness_continues_remaining_batches(
    db: TreeDatabaseView,
    mode: TreeMode,
    root_of: RootHashing,
    operations: Seq<TreeOperation>,
    tree: &mut ZkSyncTree,
    storage_logs: &[TreeInstruction<StorageKey>],
    output: TreeOutput,
    metadata: TreeMetadata,
)
    requires
        db.versions.len() == 0,
        root_of(Map::empty()) == db.empty_tree_hash(),
        are_faithful_operations(ZkSyncTreeView::fresh(db, mode), root_of, operations),
        old(tree)@ == after_operations(ZkSyncTreeView::fresh(db, mode), operations),
        number_of_leaves(old(tree)@) < u64::MAX,
        output is WithProofs,
        call_ensures(ZkSyncTree::process_l1_batch, (tree, storage_logs, output), metadata),
    ensures
        ({
            let batches = remaining_batches(ZkSyncTreeView::fresh(db, mode), operations);
            let keys = written_keys(writes_of(all_instructions(batches.current)));
            &&& metadata.witness matches Some(witness)
            &&& witness.next_enumeration_index == keys.len() + 1
        }),
{
    law_tree_holds_remaining_batches(db, mode, root_of, operations);
    lemma_versions(old(tree)@);
    law_batch_adds_version(tree, storage_logs, output, metadata);
}

} // verus!
