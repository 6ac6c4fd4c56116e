//! What the tree and its readers show over time.

use vstd::prelude::*;

use crate::tree::contents::{
    after_instructions, batch_root, holds, is_faithful, law_batch_applies_writes,
    law_batches_add_up, law_leaves_are_written_keys, lemma_writes_add_leaves, written_keys,
    Contents, RootHashing,
};
use crate::tree::database::{TreeDatabaseView, Versions, ZkSyncTreeReader};
use crate::tree::domain::{
    batch_metadata, TreeMetadataView, TreeMode, TreeOutput, ZkSyncTreeView,
};
use crate::tree::entries::{writes_of, StorageKey, TreeInstruction};
use crate::tree::laws::law_save_publishes_changes;

verus! {

/// An operation that changes the tree.
pub enum TreeOperation {
    /// An L1 batch with the specified storage logs is processed, and the Merkle tree gives the
    /// specified output.
    ProcessBatch(Seq<TreeInstruction<StorageKey>>, TreeOutput),
    /// Batches after the specified one are reverted.
    RevertLogs(nat),
    /// Accumulated changes are saved.
    Save,
    /// Accumulated changes are discarded.
    Reset,
}

/// The tree after an operation.
pub open spec fn after_operation(tree: ZkSyncTreeView, operation: TreeOperation) -> ZkSyncTreeView {
    match operation {
        TreeOperation::ProcessBatch(instructions, output) => tree.with_version(
            batch_root(batch_metadata(tree, instructions, output)),
        ),
        TreeOperation::RevertLogs(last_l1_batch_to_keep) => tree.after_revert(
            last_l1_batch_to_keep + 1,
        ),
        TreeOperation::Save => tree.after_save(),
        TreeOperation::Reset => tree.after_reset(),
    }
}

/// The tree after successive operations.
pub open spec fn after_operations(
    tree: ZkSyncTreeView,
    operations: Seq<TreeOperation>,
) -> ZkSyncTreeView
    decreases operations.len(),
{
    if operations.len() == 0 {
        tree
    } else {
        after_operation(after_operations(tree, operations.drop_last()), operations.last())
    }
}

/// The tree as it was at the latest save among the operations. If there is none, this is the saved
/// state that the tree has started with.
pub open spec fn at_latest_save(
    tree: ZkSyncTreeView,
    operations: Seq<TreeOperation>,
) -> ZkSyncTreeView
    decreases operations.len(),
{
    if operations.len() == 0 {
        tree.after_reset()
    } else if operations.last() is Save {
        after_operations(tree, operations.drop_last())
    } else {
        at_latest_save(tree, operations.drop_last())
    }
}

/// Operations keep a tree consistent, and do not change the hashes of empty subtrees.
pub proof fn law_operations_keep_consistency(
    tree: ZkSyncTreeView,
    operations: Seq<TreeOperation>,
)
    requires
        tree.is_consistent(),
    ensures
        after_operations(tree, operations).is_consistent(),
        after_operations(tree, operations).db.empty_subtree_hashes == tree.db.empty_subtree_hashes,
    decreases operations.len(),
{
    if operations.len() > 0 {
        law_operations_keep_consistency(tree, operations.drop_last());
    }
}

/// A reader sees the tree as it was at the latest save, or as it was opened if nothing has been
/// saved: its root hash, number of leaves and versions are those that the tree had then. Batches,
/// reverts and resets since are not seen. It does not matter whether the reader was obtained before
/// or after any of the operations, the latest save included, and a clone of the reader sees the same.
pub proof fn law_reader_sees_latest_save(
    tree: ZkSyncTreeView,
    operations: Seq<TreeOperation>,
    obtained_at: int,
    reader: ZkSyncTreeReader,
    cloned_reader: ZkSyncTreeReader,
)
    requires
        tree.is_consistent(),
        0 <= obtained_at <= operations.len(),
        reader@ == after_operations(tree, operations.take(obtained_at)).db.empty_tree_hash(),
        cloned(reader, cloned_reader),
    ensures
        ({
            let db = after_operations(tree, operations).db;
            let saved_tree = at_latest_save(tree, operations);
            &&& db.versions == saved_tree.versions()
            &&& reader.saved_root(db) == saved_tree.latest_root()
            &&& cloned_reader.saved_root(db) == saved_tree.latest_root()
        }),
{
    law_operations_keep_consistency(tree, operations.take(obtained_at));
    lemma_saved_state(tree, operations);
}

/// The saved state is that of the latest save.
proof fn lemma_saved_state(tree: ZkSyncTreeView, operations: Seq<TreeOperation>)
    requires
        tree.is_consistent(),
    ensures
        after_operations(tree, operations).db.versions == at_latest_save(
            tree,
            operations,
        ).versions(),
        at_latest_save(tree, operations).db.empty_tree_hash() == tree.db.empty_tree_hash(),
    decreases operations.len(),
{
    if operations.len() == 0 {
        assert(tree.after_reset().versions() =~= tree.db.versions);
    } else {
        let rest = operations.drop_last();
        law_operations_keep_consistency(tree, rest);
        law_save_publishes_changes(after_operations(tree, rest));
        lemma_saved_state(tree, rest);
    }
}

/// Right after a save, a reader sees the current state of the tree, no matter when it was obtained.
pub proof fn law_save_is_seen_by_all_readers(
    tree: ZkSyncTreeView,
    operations: Seq<TreeOperation>,
    obtained_at: int,
    reader: ZkSyncTreeReader,
)
    requires
        tree.is_consistent(),
        0 <= obtained_at <= operations.len(),
        reader@ == after_operations(tree, operations.take(obtained_at)).db.empty_tree_hash(),
    ensures
        ({
            let saved_tree = after_operations(tree, operations).after_save();
            &&& saved_tree.db.versions == saved_tree.versions()
            &&& reader.saved_root(saved_tree.db) == saved_tree.latest_root()
            &&& saved_tree.latest_root() == after_operations(tree, operations).latest_root()
        }),
{
    law_operations_keep_consistency(tree, operations.take(obtained_at));
    law_operations_keep_consistency(tree, operations);
    law_save_publishes_changes(after_operations(tree, operations));
}

/// A batch that the tree has processed.
pub struct BatchRecord {
    /// Storage logs of the batch.
    pub instructions: Seq<TreeInstruction<StorageKey>>,
    /// Metadata that the tree has produced on the batch.
    pub metadata: TreeMetadataView,
}

/// Batches that the tree consists of.
pub struct TreeBatches {
    /// Batches that are saved.
    pub saved: Seq<BatchRecord>,
    /// Batches that the tree builds on, the unsaved ones included.
    pub current: Seq<BatchRecord>,
}

/// Batches that remain after operations on a tree that starts without batches.
pub open spec fn remaining_batches(
    tree: ZkSyncTreeView,
    operations: Seq<TreeOperation>,
) -> TreeBatches
    decreases operations.len(),
{
    if operations.len() == 0 {
        TreeBatches { saved: Seq::empty(), current: Seq::empty() }
    } else {
        let batches = remaining_batches(tree, operations.drop_last());
        match operations.last() {
            TreeOperation::ProcessBatch(instructions, output) => {
                let previous_tree = after_operations(tree, operations.drop_last());
                let metadata = batch_metadata(previous_tree, instructions, output);
                TreeBatches {
                    current: batches.current.push(BatchRecord { instructions, metadata }),
                    ..batches
                }
            },
            TreeOperation::RevertLogs(last_l1_batch_to_keep) => TreeBatches {
                current: if last_l1_batch_to_keep + 1 < batches.saved.len() {
                    batches.saved.take(last_l1_batch_to_keep as int + 1)
                } else {
                    batches.saved
                },
                ..batches
            },
            TreeOperation::Save => TreeBatches { saved: batches.current, ..batches },
            TreeOperation::Reset => TreeBatches { current: batches.saved, ..batches },
        }
    }
}

/// Versions that the batches lead to.
pub open spec fn versions_of(batches: Seq<BatchRecord>) -> Versions {
    batches.map_values(|batch: BatchRecord| Some(batch_root(batch.metadata)))
}

/// Whether the indexes reported for the next leaf are 1-based indexes of 64-bit counts.
spec fn have_leaf_indexes(batches: Seq<BatchRecord>) -> bool {
    forall|i: int|
        0 <= i < batches.len() ==> 1 <= (#[trigger] batches[i]).metadata.rollup_last_leaf_index
            <= u64::MAX + 1
}

/// The saved versions and the versions of the tree are those of the remaining batches.
proof fn lemma_versions_of_remaining_batches(tree: ZkSyncTreeView, operations: Seq<TreeOperation>)
    requires
        tree.is_consistent(),
        tree.db.versions.len() == 0,
        tree.unsaved_versions.len() == 0,
    ensures
        ({
            let next_tree = after_operations(tree, operations);
            let batches = remaining_batches(tree, operations);
            &&& next_tree.db.versions == versions_of(batches.saved)
            &&& next_tree.versions() == versions_of(batches.current)
            &&& have_leaf_indexes(batches.saved)
            &&& have_leaf_indexes(batches.current)
        }),
    decreases operations.len(),
{
    let next_tree = after_operations(tree, operations);
    let batches = remaining_batches(tree, operations);
    if operations.len() == 0 {
        assert(next_tree.db.versions =~= versions_of(batches.saved));
        assert(next_tree.versions() =~= versions_of(batches.current));
    } else {
        let previous_tree = after_operations(tree, operations.drop_last());
        let previous = remaining_batches(tree, operations.drop_last());
        lemma_versions_of_remaining_batches(tree, operations.drop_last());
        law_operations_keep_consistency(tree, operations.drop_last());
        match operations.last() {
            TreeOperation::ProcessBatch(instructions, output) => {
                let metadata = batch_metadata(previous_tree, instructions, output);
                let root = Some(batch_root(metadata));
                assert(next_tree.versions() =~= previous_tree.versions().push(root));
                assert(versions_of(batches.current) =~= versions_of(previous.current).push(root));
            },
            TreeOperation::RevertLogs(last_l1_batch_to_keep) => {
                assert(previous_tree.db.versions.len() == previous.saved.len());
                assert(next_tree.versions() =~= versions_of(previous.saved).take(
                    next_tree.retained_version_count as int,
                ));
                assert(versions_of(batches.current) =~= versions_of(previous.saved).take(
                    next_tree.retained_version_count as int,
                ));
            },
            TreeOperation::Save => {
                law_save_publishes_changes(previous_tree);
            },
            TreeOperation::Reset => {
                assert(next_tree.versions() =~= versions_of(previous.saved));
            },
        }
    }
}

/// Whatever operations a tree without batches goes through, a reader sees the root hash and the number
/// of leaves that have been reported for the last batch that is saved, and the tree itself has those
/// of the last batch that is not reverted or discarded. Without such a batch there are no leaves. The
/// next batch is the one after those that remain.
pub proof fn law_reader_reports_last_saved_batch(
    db: TreeDatabaseView,
    mode: TreeMode,
    operations: Seq<TreeOperation>,
    reader: ZkSyncTreeReader,
)
    requires
        db.versions.len() == 0,
        reader@ == db.empty_tree_hash(),
    ensures
        ({
            let opened_tree = ZkSyncTreeView::fresh(db, mode);
            let tree = after_operations(opened_tree, operations);
            let batches = remaining_batches(opened_tree, operations);
            &&& tree.db.versions.len() == batches.saved.len()
            &&& tree.versions().len() == batches.current.len()
            &&& if batches.saved.len() > 0 {
                let metadata = batches.saved.last().metadata;
                &&& reader.saved_root(tree.db).leaf_count == metadata.rollup_last_leaf_index - 1
                &&& reader.saved_root(tree.db).root_hash == metadata.root_hash
            } else {
                &&& reader.saved_root(tree.db).leaf_count == 0
                &&& reader.saved_root(tree.db).root_hash == db.empty_tree_hash()
            }
            &&& if batches.current.len() > 0 {
                let metadata = batches.current.last().metadata;
                &&& tree.latest_root().leaf_count == metadata.rollup_last_leaf_index - 1
                &&& tree.latest_root().root_hash == metadata.root_hash
            } else {
                &&& tree.latest_root().leaf_count == 0
                &&& tree.latest_root().root_hash == db.empty_tree_hash()
            }
        }),
{
    let opened_tree = ZkSyncTreeView::fresh(db, mode);
    let batches = remaining_batches(opened_tree, operations);
    lemma_versions_of_remaining_batches(opened_tree, operations);
    law_operations_keep_consistency(opened_tree, operations);
    if batches.saved.len() > 0 {
        assert(batches.saved[batches.saved.len() - 1] == batches.saved.last());
    }
    if batches.current.len() > 0 {
        assert(batches.current[batches.current.len() - 1] == batches.current.last());
    }
}

/// Storage logs of all batches, in the order of the batches.
pub open spec fn all_instructions(batches: Seq<BatchRecord>) -> Seq<TreeInstruction<StorageKey>>
    decreases batches.len(),
{
    if batches.len() == 0 {
        Seq::empty()
    } else {
        all_instructions(batches.drop_last()) + batches.last().instructions
    }
}

/// Contents that the batches leave in a tree that starts empty.
pub open spec fn contents_of(batches: Seq<BatchRecord>) -> Contents {
    after_instructions(Map::empty(), all_instructions(batches))
}

/// Whether the Merkle tree answers each processed batch faithfully: as a tree does that holds the
/// contents left by the batches that the batch builds on.
pub open spec fn are_faithful_operations(
    tree: ZkSyncTreeView,
    root_of: RootHashing,
    operations: Seq<TreeOperation>,
) -> bool {
    forall|i: int|
        0 <= i < operations.len() ==> ((#[trigger] operations[i]) matches
            TreeOperation::ProcessBatch(instructions, output) ==> is_faithful(
            contents_of(remaining_batches(tree, operations.take(i)).current),
            root_of,
            instructions,
            output,
        ))
}

/// Whether the metadata of each batch describes the contents that the batches up to it leave.
pub open spec fn describe_contents(root_of: RootHashing, batches: Seq<BatchRecord>) -> bool {
    forall|i: int|
        0 <= i < batches.len() ==> {
            let contents = contents_of(batches.take(i + 1));
            let metadata = (#[trigger] batches[i]).metadata;
            &&& metadata.root_hash == root_of(contents)
            &&& metadata.rollup_last_leaf_index == contents.len() + 1
        }
}

/// Whatever operations a tree without batches goes through, its contents are those that the batches
/// leave which are not reverted or discarded. A reader counts the distinct keys among the writes of
/// the batches that are saved and not reverted; the tree itself counts those of the batches that it
/// builds on. Reads, repeated writes, and batches that do not remain add nothing.
pub proof fn law_reader_counts_written_keys(
    db: TreeDatabaseView,
    mode: TreeMode,
    root_of: RootHashing,
    operations: Seq<TreeOperation>,
    reader: ZkSyncTreeReader,
)
    requires
        db.versions.len() == 0,
        root_of(Map::empty()) == db.empty_tree_hash(),
        are_faithful_operations(ZkSyncTreeView::fresh(db, mode), root_of, operations),
        reader@ == db.empty_tree_hash(),
    ensures
        ({
            let opened_tree = ZkSyncTreeView::fresh(db, mode);
            let tree = after_operations(opened_tree, operations);
            let batches = remaining_batches(opened_tree, operations);
            &&& describe_contents(root_of, batches.saved)
            &&& describe_contents(root_of, batches.current)
            &&& holds(tree, root_of, contents_of(batches.current))
            &&& tree.latest_root().leaf_count == written_keys(
                writes_of(all_instructions(batches.current)),
            ).len()
            &&& reader.saved_root(tree.db).root_hash == root_of(contents_of(batches.saved))
            &&& reader.saved_root(tree.db).leaf_count == written_keys(
                writes_of(all_instructions(batches.saved)),
            ).len()
        }),
{
    let opened_tree = ZkSyncTreeView::fresh(db, mode);
    let batches = remaining_batches(opened_tree, operations);
    lemma_remaining_batches_describe_contents(db, mode, root_of, operations);
    law_reader_reports_last_saved_batch(db, mode, operations, reader);
    lemma_last_batch_describes_contents(root_of, batches.saved);
    lemma_last_batch_describes_contents(root_of, batches.current);
    law_leaves_are_written_keys(all_instructions(batches.saved));
    law_leaves_are_written_keys(all_instructions(batches.current));
}

/// Whatever operations a tree without batches goes through, it holds what the batches leave that are
/// not reverted or discarded, and counts the distinct keys among their writes.
pub proof fn law_tree_holds_remaining_batches(
    db: TreeDatabaseView,
    mode: TreeMode,
    root_of: RootHashing,
    operations: Seq<TreeOperation>,
)
    requires
        db.versions.len() == 0,
        root_of(Map::empty()) == db.empty_tree_hash(),
        are_faithful_operations(ZkSyncTreeView::fresh(db, mode), root_of, operations),
    ensures
        ({
            let opened_tree = ZkSyncTreeView::fresh(db, mode);
            let tree = after_operations(opened_tree, operations);
            let batches = remaining_batches(opened_tree, operations);
            &&& tree.is_consistent()
            &&& holds(tree, root_of, contents_of(batches.current))
            &&& contents_of(batches.current).len() == written_keys(
                writes_of(all_instructions(batches.current)),
            ).len()
        }),
{
    let opened_tree = ZkSyncTreeView::fresh(db, mode);
    lemma_remaining_batches_describe_contents(db, mode, root_of, operations);
    lemma_tree_holds_described_contents(db, mode, root_of, operations);
    law_operations_keep_consistency(opened_tree, operations);
    law_leaves_are_written_keys(
        all_instructions(remaining_batches(opened_tree, operations).current),
    );
}

/// The last of batches describes the contents that all of them leave.
proof fn lemma_last_batch_describes_contents(root_of: RootHashing, batches: Seq<BatchRecord>)
    requires
        describe_contents(root_of, batches),
    ensures
        contents_of(batches).dom().finite(),
        batches.len() == 0 ==> contents_of(batches) == Contents::empty(),
        batches.len() > 0 ==> {
            &&& batches.last().metadata.root_hash == root_of(contents_of(batches))
            &&& batches.last().metadata.rollup_last_leaf_index == contents_of(batches).len() + 1
        },
{
    lemma_writes_add_leaves(Map::empty(), writes_of(all_instructions(batches)));
    if batches.len() == 0 {
        assert(writes_of(all_instructions(batches)) =~= Seq::empty());
    } else {
        let last = batches.len() - 1;
        assert(batches.take(last + 1) =~= batches);
        assert(batches[last] == batches.last());
    }
}

/// The first of batches describe contents if all of them do.
proof fn lemma_first_batches_describe_contents(
    root_of: RootHashing,
    batches: Seq<BatchRecord>,
    count: int,
)
    requires
        describe_contents(root_of, batches),
        0 <= count <= batches.len(),
    ensures
        describe_contents(root_of, batches.take(count)),
{
    assert forall|i: int| 0 <= i < count implies {
        let contents = contents_of(batches.take(count).take(i + 1));
        let metadata = (#[trigger] batches.take(count)[i]).metadata;
        &&& metadata.root_hash == root_of(contents)
        &&& metadata.rollup_last_leaf_index == contents.len() + 1
    } by {
        assert(batches.take(count).take(i + 1) =~= batches.take(i + 1));
        assert(batches.take(count)[i] == batches[i]);
    }
}

/// The remaining batches describe contents.
proof fn lemma_remaining_batches_describe_contents(
    db: TreeDatabaseView,
    mode: TreeMode,
    root_of: RootHashing,
    operations: Seq<TreeOperation>,
)
    requires
        db.versions.len() == 0,
        root_of(Map::empty()) == db.empty_tree_hash(),
        are_faithful_operations(ZkSyncTreeView::fresh(db, mode), root_of, operations),
    ensures
        ({
            let batches = remaining_batches(ZkSyncTreeView::fresh(db, mode), operations);
            &&& describe_contents(root_of, batches.saved)
            &&& describe_contents(root_of, batches.current)
        }),
    decreases operations.len(),
{
    let opened_tree = ZkSyncTreeView::fresh(db, mode);
    if operations.len() > 0 {
        let rest = operations.drop_last();
        let last = operations.len() - 1;
        let previous_tree = after_operations(opened_tree, rest);
        let previous = remaining_batches(opened_tree, rest);
        let batches = remaining_batches(opened_tree, operations);
        assert forall|i: int| 0 <= i < rest.len() implies ((#[trigger] rest[i]) matches
            TreeOperation::ProcessBatch(instructions, output) ==> is_faithful(
            contents_of(remaining_batches(opened_tree, rest.take(i)).current),
            root_of,
            instructions,
            output,
        )) by {
            assert(rest.take(i) =~= operations.take(i));
            assert(rest[i] == operations[i]);
        }
        lemma_remaining_batches_describe_contents(db, mode, root_of, rest);
        match operations.last() {
            TreeOperation::ProcessBatch(instructions, output) => {
                assert(operations.take(last) =~= rest);
                assert(operations[last] == operations.last());
                lemma_tree_holds_described_contents(db, mode, root_of, rest);
                law_operations_keep_consistency(opened_tree, rest);
                law_batch_applies_writes(
                    previous_tree,
                    root_of,
                    contents_of(previous.current),
                    instructions,
                    output,
                );
                law_batches_add_up(
                    Map::empty(),
                    all_instructions(previous.current),
                    instructions,
                );
                assert(batches.current.drop_last() =~= previous.current);
                assert forall|i: int| 0 <= i < batches.current.len() implies {
                    let contents = contents_of(batches.current.take(i + 1));
                    let metadata = (#[trigger] batches.current[i]).metadata;
                    &&& metadata.root_hash == root_of(contents)
                    &&& metadata.rollup_last_leaf_index == contents.len() + 1
                } by {
                    if i < previous.current.len() {
                        assert(batches.current.take(i + 1) =~= previous.current.take(i + 1));
                        assert(batches.current[i] == previous.current[i]);
                    } else {
                        assert(batches.current.take(i + 1) =~= batches.current);
                    }
                }
            },
            TreeOperation::RevertLogs(last_l1_batch_to_keep) => {
                if last_l1_batch_to_keep + 1 < previous.saved.len() {
                    lemma_first_batches_describe_contents(
                        root_of,
                        previous.saved,
                        last_l1_batch_to_keep as int + 1,
                    );
                }
            },
            _ => {},
        }
    }
}

/// The tree holds the contents that the remaining batches describe.
proof fn lemma_tree_holds_described_contents(
    db: TreeDatabaseView,
    mode: TreeMode,
    root_of: RootHashing,
    operations: Seq<TreeOperation>,
)
    requires
        db.versions.len() == 0,
        root_of(Map::empty()) == db.empty_tree_hash(),
        describe_contents(
            root_of,
            remaining_batches(ZkSyncTreeView::fresh(db, mode), operations).current,
        ),
    ensures
        holds(
            after_operations(ZkSyncTreeView::fresh(db, mode), operations),
            root_of,
            contents_of(remaining_batches(ZkSyncTreeView::fresh(db, mode), operations).current),
        ),
{
    let opened_tree = ZkSyncTreeView::fresh(db, mode);
    let batches = remaining_batches(opened_tree, operations);
    lemma_versions_of_remaining_batches(opened_tree, operations);
    law_operations_keep_consistency(opened_tree, operations);
    lemma_last_batch_describes_contents(root_of, batches.current);
    if batches.current.len() > 0 {
        assert(batches.current[batches.current.len() - 1] == batches.current.last());
    }
}

} // verus!
