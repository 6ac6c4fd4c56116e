//! Contents of the tree, and how batches change them as long as the Merkle tree answers faithfully.

use vstd::prelude::*;

use crate::tree::database::{TreeDatabaseView, TreeRoot};
use crate::tree::domain::{
    batch_metadata, changes_of, full_metadata, lightweight_metadata, TreeMetadataView,
    TreeMode, TreeOutput, ZkSyncTreeView,
};
use crate::tree::entries::{
    writes_of, written_entry, BlockOutput, BlockOutputWithProofs, StorageKey,
    TreeEntry, TreeInstruction, TreeLogEntry, TreeLogEntryWithProof,
};
use crate::tree::laws::{
    answers, law_batch_becomes_latest, law_witness_covers_batch, lemma_filter_map_push,
    lemma_filter_push, lemma_split_last,
};
use crate::tree::witness::{
    is_noop_update, value_written, witness_log, witness_logs, AnsweredInstruction,
    StorageLogMetadataView,
};
use crate::tree::writes::{
    initial_write, initial_writes, paired, repeated_write, repeated_writes, InitialStorageWrite,
};
use crate::types::{Key, ValueHash, H256};

verus! {

/// What a leaf of the tree holds.
pub struct Leaf {
    pub value: ValueHash,
    pub leaf_index: u64,
}

/// Leaves of the tree by their keys.
pub type Contents = Map<Key, Leaf>;

/// The root hash that the Merkle tree gives to its contents.
pub type RootHashing = spec_fn(Contents) -> ValueHash;

/// Key of the leaf that an entry is written to.
pub open spec fn leaf_key(entry: TreeEntry<StorageKey>) -> Key {
    entry.key.hashed_key
}

/// The contents after a write.
pub open spec fn after_write(contents: Contents, entry: TreeEntry<StorageKey>) -> Contents {
    contents.insert(leaf_key(entry), Leaf { value: entry.value, leaf_index: entry.leaf_index })
}

/// The contents after successive writes.
pub open spec fn after_writes(contents: Contents, entries: Seq<TreeEntry<StorageKey>>) -> Contents
    decreases entries.len(),
{
    if entries.len() == 0 {
        contents
    } else {
        after_write(after_writes(contents, entries.drop_last()), entries.last())
    }
}

/// The contents after the instructions of a batch, which are changed by its writes only.
pub open spec fn after_instructions(
    contents: Contents,
    instructions: Seq<TreeInstruction<StorageKey>>,
) -> Contents {
    after_writes(contents, writes_of(instructions))
}

/// What a tree with the specified contents does on a write.
pub open spec fn answer_to_write(
    contents: Contents,
    entry: TreeEntry<StorageKey>,
) -> TreeLogEntry {
    if contents.contains_key(leaf_key(entry)) {
        let leaf = contents[leaf_key(entry)];
        TreeLogEntry::Updated { leaf_index: leaf.leaf_index, previous_value: leaf.value }
    } else {
        TreeLogEntry::Inserted
    }
}

/// What a tree with the specified contents does on an instruction.
pub open spec fn answer(
    contents: Contents,
    instruction: TreeInstruction<StorageKey>,
) -> TreeLogEntry {
    match instruction {
        TreeInstruction::Write(entry) => answer_to_write(contents, entry),
        TreeInstruction::Read(key) => if contents.contains_key(key.hashed_key) {
            let leaf = contents[key.hashed_key];
            TreeLogEntry::Read { leaf_index: leaf.leaf_index, value: leaf.value }
        } else {
            TreeLogEntry::ReadMissingKey
        },
    }
}

/// What a tree with the specified contents does on successive writes.
pub open spec fn answers_to_writes(
    contents: Contents,
    entries: Seq<TreeEntry<StorageKey>>,
) -> Seq<TreeLogEntry> {
    Seq::new(
        entries.len(),
        |i: int| answer_to_write(after_writes(contents, entries.take(i)), entries[i]),
    )
}

/// Whether a write gives a leaf the value that it already has.
pub open spec fn is_noop_write(contents: Contents, entry: TreeEntry<StorageKey>) -> bool {
    contents.contains_key(leaf_key(entry)) && contents[leaf_key(entry)].value == entry.value
}

/// Whether each of successive writes of a value that its leaf already has carries the enumeration
/// index of the leaf.
pub open spec fn noops_keep_indexes(
    contents: Contents,
    entries: Seq<TreeEntry<StorageKey>>,
) -> bool {
    forall|i: int|
        0 <= i < entries.len() ==> {
            let before = after_writes(contents, entries.take(i));
            let entry = #[trigger] entries[i];
            is_noop_write(before, entry) ==> before[leaf_key(entry)].leaf_index == entry.leaf_index
        }
}

/// Whether an instruction of a batch is a write of the value that its leaf already has at that point.
pub open spec fn is_noop_at(
    contents: Contents,
    instructions: Seq<TreeInstruction<StorageKey>>,
    i: int,
) -> bool {
    instructions[i] matches TreeInstruction::Write(entry) && is_noop_write(
        after_instructions(contents, instructions.take(i)),
        entry,
    )
}

/// Whether the instructions of a batch from the specified one on are all writes of the values that
/// their leaves already have.
pub open spec fn are_noops_from(
    contents: Contents,
    instructions: Seq<TreeInstruction<StorageKey>>,
    start: int,
) -> bool {
    forall|i: int|
        start <= i < instructions.len() ==> #[trigger] is_noop_at(contents, instructions, i)
}

/// Whether an instruction, if it is a write, carries the enumeration index that its leaf has at that
/// point.
pub open spec fn keeps_index_at(
    contents: Contents,
    instructions: Seq<TreeInstruction<StorageKey>>,
    i: int,
) -> bool {
    instructions[i] matches TreeInstruction::Write(entry) ==> after_instructions(
        contents,
        instructions.take(i),
    )[leaf_key(entry)].leaf_index == entry.leaf_index
}

/// Whether the writes that a batch ends with carry the enumeration indexes of their leaves, as far as
/// nothing but writes of the values that leaves already have follows.
pub open spec fn final_noops_keep_indexes(
    contents: Contents,
    instructions: Seq<TreeInstruction<StorageKey>>,
) -> bool {
    forall|i: int|
        0 <= i < instructions.len() && #[trigger] are_noops_from(contents, instructions, i)
            ==> keeps_index_at(contents, instructions, i)
}

/// Whether the proven logs are what a tree with the specified contents does on the instructions.
pub open spec fn are_faithful_logs(
    contents: Contents,
    root_of: RootHashing,
    instructions: Seq<TreeInstruction<StorageKey>>,
    logs: Seq<TreeLogEntryWithProof>,
) -> bool {
    &&& logs.len() == instructions.len()
    &&& forall|i: int|
        0 <= i < logs.len() ==> {
            let before = after_instructions(contents, instructions.take(i));
            let log = #[trigger] logs[i];
            &&& log.base == answer(before, instructions[i])
            &&& log.root_hash == root_of(after_instructions(contents, instructions.take(i + 1)))
        }
}

/// Whether an output is what a tree with the specified contents gives for the writes.
pub open spec fn is_faithful_without_proofs(
    contents: Contents,
    root_of: RootHashing,
    entries: Seq<TreeEntry<StorageKey>>,
    output: BlockOutput,
) -> bool {
    &&& output.logs@ == answers_to_writes(contents, entries)
    &&& output.root_hash == root_of(after_writes(contents, entries))
    &&& output.leaf_count == after_writes(contents, entries).len()
}

/// Whether an output is what a tree with the specified contents gives for the instructions.
pub open spec fn is_faithful_with_proofs(
    contents: Contents,
    root_of: RootHashing,
    instructions: Seq<TreeInstruction<StorageKey>>,
    output: BlockOutputWithProofs,
) -> bool {
    &&& are_faithful_logs(contents, root_of, instructions, output.logs@)
    &&& output.leaf_count == after_instructions(contents, instructions).len()
}

/// Whether an output is what a tree with the specified contents gives for a batch.
pub open spec fn is_faithful(
    contents: Contents,
    root_of: RootHashing,
    instructions: Seq<TreeInstruction<StorageKey>>,
    output: TreeOutput,
) -> bool {
    match output {
        TreeOutput::WithProofs(output) => is_faithful_with_proofs(
            contents,
            root_of,
            instructions,
            output,
        ),
        TreeOutput::WithoutProofs(output) => is_faithful_without_proofs(
            contents,
            root_of,
            writes_of(instructions),
            output,
        ),
    }
}

/// Whether the latest version of a tree has the specified contents.
pub open spec fn holds(tree: ZkSyncTreeView, root_of: RootHashing, contents: Contents) -> bool {
    &&& contents.dom().finite()
    &&& tree.latest_root().root_hash == root_of(contents)
    &&& tree.latest_root().leaf_count == contents.len()
}

/// Root of the version that a batch with the specified metadata adds to the tree.
pub open spec fn batch_root(metadata: TreeMetadataView) -> TreeRoot {
    TreeRoot {
        root_hash: metadata.root_hash,
        leaf_count: (metadata.rollup_last_leaf_index - 1) as u64,
    }
}

/// Splits the last instruction off.
pub(crate) proof fn lemma_after_last_instruction(
    contents: Contents,
    instructions: Seq<TreeInstruction<StorageKey>>,
)
    requires
        instructions.len() > 0,
    ensures
        writes_of(instructions) == match written_entry(instructions.last()) {
            Some(entry) => writes_of(instructions.drop_last()).push(entry),
            None => writes_of(instructions.drop_last()),
        },
        after_instructions(contents, instructions) == match written_entry(instructions.last()) {
            Some(entry) => after_write(
                after_instructions(contents, instructions.drop_last()),
                entry,
            ),
            None => after_instructions(contents, instructions.drop_last()),
        },
{
    assert(instructions =~= instructions.drop_last().push(instructions.last()));
    lemma_filter_map_push(
        instructions.drop_last(),
        |instruction: TreeInstruction<StorageKey>| written_entry(instruction),
        instructions.last(),
    );
    if let Some(entry) = written_entry(instructions.last()) {
        let writes = writes_of(instructions.drop_last());
        assert(writes.push(entry).drop_last() =~= writes);
    }
}

/// Answers to successive writes do not depend on later writes.
proof fn lemma_answers_to_writes_push(
    contents: Contents,
    entries: Seq<TreeEntry<StorageKey>>,
    entry: TreeEntry<StorageKey>,
)
    ensures
        answers_to_writes(contents, entries.push(entry)) == answers_to_writes(
            contents,
            entries,
        ).push(answer_to_write(after_writes(contents, entries), entry)),
        after_writes(contents, entries.push(entry)) == after_write(
            after_writes(contents, entries),
            entry,
        ),
{
    assert(entries.push(entry).drop_last() =~= entries);
    assert forall|i: int| 0 <= i <= entries.len() implies #[trigger] entries.push(entry).take(i)
        =~= entries.take(i) by {}
    assert(entries.take(entries.len() as int) =~= entries);
    assert(answers_to_writes(contents, entries.push(entry)) =~= answers_to_writes(
        contents,
        entries,
    ).push(answer_to_write(after_writes(contents, entries), entry)));
}

/// Splits the last of faithful logs off.
proof fn lemma_split_last_faithful_log(
    contents: Contents,
    root_of: RootHashing,
    instructions: Seq<TreeInstruction<StorageKey>>,
    logs: Seq<TreeLogEntryWithProof>,
)
    requires
        are_faithful_logs(contents, root_of, instructions, logs),
        logs.len() > 0,
    ensures
        are_faithful_logs(contents, root_of, instructions.drop_last(), logs.drop_last()),
        logs.last().base == answer(
            after_instructions(contents, instructions.drop_last()),
            instructions.last(),
        ),
        logs.last().root_hash == root_of(after_instructions(contents, instructions)),
{
    let last = logs.len() - 1;
    assert(logs[last].base == answer(
        after_instructions(contents, instructions.take(last)),
        instructions[last],
    ));
    assert(instructions.take(last) =~= instructions.drop_last());
    assert(instructions.take(last + 1) =~= instructions);
    assert forall|i: int| 0 <= i < last implies {
        let before = after_instructions(contents, instructions.drop_last().take(i));
        let log = #[trigger] logs.drop_last()[i];
        &&& log.base == answer(before, instructions.drop_last()[i])
        &&& log.root_hash == root_of(
            after_instructions(contents, instructions.drop_last().take(i + 1)),
        )
    } by {
        assert(instructions.drop_last().take(i) =~= instructions.take(i));
        assert(instructions.drop_last().take(i + 1) =~= instructions.take(i + 1));
        assert(logs[i] == logs.drop_last()[i]);
    }
}

/// Faithful logs answer reads by reads and writes by changes, and their changes are the answers to
/// the writes alone.
proof fn lemma_changes_of_faithful_logs(
    contents: Contents,
    root_of: RootHashing,
    instructions: Seq<TreeInstruction<StorageKey>>,
    logs: Seq<TreeLogEntryWithProof>,
)
    requires
        are_faithful_logs(contents, root_of, instructions, logs),
    ensures
        answers(logs, instructions),
        changes_of(logs) == answers_to_writes(contents, writes_of(instructions)),
    decreases logs.len(),
{
    assert forall|i: int| 0 <= i < logs.len() implies (#[trigger] logs[i]).base.spec_is_read() == (
    instructions[i] is Read) by {}
    if logs.len() == 0 {
        assert(changes_of(logs) =~= Seq::empty());
        assert(writes_of(instructions) =~= Seq::empty());
        assert(answers_to_writes(contents, writes_of(instructions)) =~= Seq::empty());
    } else {
        lemma_split_last_faithful_log(contents, root_of, instructions, logs);
        lemma_changes_of_faithful_logs(
            contents,
            root_of,
            instructions.drop_last(),
            logs.drop_last(),
        );
        lemma_split_last(logs, instructions);
        if let TreeInstruction::Write(entry) = instructions.last() {
            lemma_answers_to_writes_push(contents, writes_of(instructions.drop_last()), entry);
        }
    }
}

/// Successive writes keep contents finite, and add a leaf for each write that inserts one.
pub(crate) proof fn lemma_writes_add_leaves(
    contents: Contents,
    entries: Seq<TreeEntry<StorageKey>>,
)
    requires
        contents.dom().finite(),
    ensures
        after_writes(contents, entries).dom().finite(),
        after_writes(contents, entries).len() == contents.len() + initial_writes(
            answers_to_writes(contents, entries),
            entries,
        ).len(),
    decreases entries.len(),
{
    let pair_write = |pair: (TreeLogEntry, TreeEntry<StorageKey>)| initial_write(pair);
    let logs = answers_to_writes(contents, entries);
    if entries.len() == 0 {
        assert(paired(logs, entries) =~= Seq::empty());
        assert(paired(logs, entries).filter_map(pair_write) =~= Seq::empty());
    } else {
        let rest = entries.drop_last();
        let entry = entries.last();
        let rest_logs = answers_to_writes(contents, rest);
        assert(entries =~= rest.push(entry));
        lemma_writes_add_leaves(contents, rest);
        lemma_answers_to_writes_push(contents, rest, entry);
        let log = answer_to_write(after_writes(contents, rest), entry);
        assert(paired(logs, entries) =~= paired(rest_logs, rest).push((log, entry)));
        lemma_filter_map_push(paired(rest_logs, rest), pair_write, (log, entry));
        let before = after_writes(contents, rest);
        assert(after_write(before, entry).dom() =~= before.dom().insert(leaf_key(entry)));
        if before.contains_key(leaf_key(entry)) {
            assert(before.dom().insert(leaf_key(entry)) =~= before.dom());
        }
    }
}

/// A batch applies its writes to the contents of the tree, whatever the mode is. The metadata of the
/// batch has the root hash of the new contents, counts their leaves, and has an initial write for each
/// leaf that is new. Both the initial and the repeated writes are determined by the contents and by
/// the writes of the batch.
pub proof fn law_batch_applies_writes(
    tree: ZkSyncTreeView,
    root_of: RootHashing,
    contents: Contents,
    instructions: Seq<TreeInstruction<StorageKey>>,
    output: TreeOutput,
)
    requires
        tree.is_consistent(),
        holds(tree, root_of, contents),
        is_faithful(contents, root_of, instructions, output),
    ensures
        ({
            let metadata = batch_metadata(tree, instructions, output);
            let writes = writes_of(instructions);
            let logs = answers_to_writes(contents, writes);
            let next = after_instructions(contents, instructions);
            &&& metadata.root_hash == root_of(next)
            &&& metadata.rollup_last_leaf_index == next.len() + 1
            &&& metadata.rollup_last_leaf_index == tree.latest_root().leaf_count + 1
                + metadata.initial_writes.len()
            &&& metadata.initial_writes == initial_writes(logs, writes)
            &&& metadata.repeated_writes == repeated_writes(logs, writes)
            &&& batch_root(metadata).leaf_count == output.leaf_count()
            &&& holds(tree.with_version(batch_root(metadata)), root_of, next)
        }),
{
    let metadata = batch_metadata(tree, instructions, output);
    lemma_writes_add_leaves(contents, writes_of(instructions));
    law_batch_becomes_latest(tree, batch_root(metadata));
    if let TreeOutput::WithProofs(output) = output {
        lemma_changes_of_faithful_logs(contents, root_of, instructions, output.logs@);
        if output.logs@.len() == 0 {
            assert(writes_of(instructions) =~= Seq::empty());
        } else {
            lemma_split_last_faithful_log(contents, root_of, instructions, output.logs@);
        }
    }
}

/// Whether initial writes are to leaves that are new and distinct.
pub open spec fn are_new_leaves(
    contents: Contents,
    next: Contents,
    writes: Seq<InitialStorageWrite>,
) -> bool {
    &&& forall|i: int|
        0 <= i < writes.len() ==> !contents.contains_key((#[trigger] writes[i]).key)
            && next.contains_key(writes[i].key)
    &&& forall|i: int, j: int|
        0 <= i < j < writes.len() ==> (#[trigger] writes[i]).key != (#[trigger] writes[j]).key
}

/// No two initial writes of a batch share a key, whatever the mode is, even if the batch writes to a
/// key more than once. The keys are those of leaves that the tree did not have before the batch, and
/// has after it.
pub proof fn law_initial_writes_have_distinct_keys(
    tree: ZkSyncTreeView,
    root_of: RootHashing,
    contents: Contents,
    instructions: Seq<TreeInstruction<StorageKey>>,
    output: TreeOutput,
)
    requires
        tree.is_consistent(),
        holds(tree, root_of, contents),
        is_faithful(contents, root_of, instructions, output),
    ensures
        are_new_leaves(
            contents,
            after_instructions(contents, instructions),
            batch_metadata(tree, instructions, output).initial_writes,
        ),
{
    law_batch_applies_writes(tree, root_of, contents, instructions, output);
    lemma_initial_writes_are_new_leaves(contents, writes_of(instructions));
}

/// Successive writes keep existing leaves, and insert new and distinct ones.
proof fn lemma_initial_writes_are_new_leaves(
    contents: Contents,
    entries: Seq<TreeEntry<StorageKey>>,
)
    ensures
        forall|key: Key|
            contents.contains_key(key) ==> #[trigger] after_writes(contents, entries).contains_key(
                key,
            ),
        are_new_leaves(
            contents,
            after_writes(contents, entries),
            initial_writes(answers_to_writes(contents, entries), entries),
        ),
    decreases entries.len(),
{
    let pair_write = |pair: (TreeLogEntry, TreeEntry<StorageKey>)| initial_write(pair);
    let logs = answers_to_writes(contents, entries);
    if entries.len() == 0 {
        assert(paired(logs, entries) =~= Seq::empty());
        assert(paired(logs, entries).filter_map(pair_write) =~= Seq::empty());
    } else {
        let rest = entries.drop_last();
        let entry = entries.last();
        let before = after_writes(contents, rest);
        let rest_logs = answers_to_writes(contents, rest);
        let log = answer_to_write(before, entry);
        assert(entries =~= rest.push(entry));
        lemma_initial_writes_are_new_leaves(contents, rest);
        lemma_answers_to_writes_push(contents, rest, entry);
        assert(paired(logs, entries) =~= paired(rest_logs, rest).push((log, entry)));
        lemma_filter_map_push(paired(rest_logs, rest), pair_write, (log, entry));
        let rest_writes = initial_writes(rest_logs, rest);
        let writes = initial_writes(logs, entries);
        assert forall|i: int| 0 <= i < rest_writes.len() implies #[trigger] writes[i]
            == rest_writes[i] by {}
        if log is Inserted {
            assert(writes.len() == rest_writes.len() + 1);
            assert(writes[writes.len() - 1].key == leaf_key(entry));
        }
    }
}

/// Trees in the two modes with equal contents produce the same metadata on a batch, except that only
/// the full mode produces a witness. Their contents are equal again after the batch.
pub proof fn law_modes_agree_on_contents(
    full: ZkSyncTreeView,
    lightweight: ZkSyncTreeView,
    root_of: RootHashing,
    contents: Contents,
    instructions: Seq<TreeInstruction<StorageKey>>,
    with_proofs: BlockOutputWithProofs,
    without_proofs: BlockOutput,
)
    requires
        full.is_consistent(),
        lightweight.is_consistent(),
        holds(full, root_of, contents),
        holds(lightweight, root_of, contents),
        is_faithful_with_proofs(contents, root_of, instructions, with_proofs),
        is_faithful_without_proofs(contents, root_of, writes_of(instructions), without_proofs),
    ensures
        ({
            let full_metadata = full_metadata(full, instructions, with_proofs);
            let lightweight_metadata = lightweight_metadata(instructions, without_proofs);
            let next = after_instructions(contents, instructions);
            &&& full_metadata.witness is Some
            &&& lightweight_metadata.witness is None
            &&& lightweight_metadata == (TreeMetadataView { witness: None, ..full_metadata })
            &&& holds(full.with_version(batch_root(full_metadata)), root_of, next)
            &&& holds(lightweight.with_version(batch_root(lightweight_metadata)), root_of, next)
        }),
{
    law_batch_applies_writes(
        full,
        root_of,
        contents,
        instructions,
        TreeOutput::WithProofs(with_proofs),
    );
    law_batch_applies_writes(
        lightweight,
        root_of,
        contents,
        instructions,
        TreeOutput::WithoutProofs(without_proofs),
    );
}

/// The output for the genesis batch on an in-memory tree has the root hash and the number of leaves of
/// the first batch with the same storage logs on an empty tree, in both modes. It depends on nothing
/// but the storage logs: processing them again gives the same output.
pub proof fn law_genesis_agrees_with_first_batch(
    full: ZkSyncTreeView,
    lightweight: ZkSyncTreeView,
    root_of: RootHashing,
    storage_logs: Seq<TreeInstruction<StorageKey>>,
    genesis: BlockOutput,
    repeated_genesis: BlockOutput,
    with_proofs: BlockOutputWithProofs,
    without_proofs: BlockOutput,
)
    requires
        full.is_consistent(),
        lightweight.is_consistent(),
        holds(full, root_of, Map::empty()),
        holds(lightweight, root_of, Map::empty()),
        is_faithful_without_proofs(Map::empty(), root_of, writes_of(storage_logs), genesis),
        is_faithful_without_proofs(
            Map::empty(),
            root_of,
            writes_of(storage_logs),
            repeated_genesis,
        ),
        is_faithful_with_proofs(Map::empty(), root_of, storage_logs, with_proofs),
        is_faithful_without_proofs(Map::empty(), root_of, writes_of(storage_logs), without_proofs),
    ensures
        ({
            let full_metadata = full_metadata(full, storage_logs, with_proofs);
            let lightweight_metadata = lightweight_metadata(storage_logs, without_proofs);
            &&& full_metadata.root_hash == genesis.root_hash
            &&& lightweight_metadata.root_hash == genesis.root_hash
            &&& full_metadata.rollup_last_leaf_index == genesis.leaf_count + 1
            &&& lightweight_metadata.rollup_last_leaf_index == genesis.leaf_count + 1
            &&& repeated_genesis.root_hash == genesis.root_hash
            &&& repeated_genesis.leaf_count == genesis.leaf_count
            &&& repeated_genesis.logs@ == genesis.logs@
        }),
{
    law_modes_agree_on_contents(
        full,
        lightweight,
        root_of,
        Map::empty(),
        storage_logs,
        with_proofs,
        without_proofs,
    );
}

/// A tree over a database without versions is empty.
pub proof fn law_fresh_tree_is_empty(db: TreeDatabaseView, mode: TreeMode, root_of: RootHashing)
    requires
        db.versions.len() == 0,
        root_of(Map::empty()) == db.empty_tree_hash(),
    ensures
        holds(ZkSyncTreeView::fresh(db, mode), root_of, Map::empty()),
{
    assert(ZkSyncTreeView::fresh(db, mode).versions() =~= Seq::empty());
}

/// The root hash after a batch in the full mode is that of the last log in the witness; if the witness
/// has no logs, it is the root hash before the batch. The tree has this root hash afterwards. The
/// no-op updates that follow the last log in the witness must carry the enumeration indexes of their
/// leaves.
pub proof fn law_witness_ends_with_root_hash(
    tree: ZkSyncTreeView,
    root_of: RootHashing,
    contents: Contents,
    instructions: Seq<TreeInstruction<StorageKey>>,
    output: BlockOutputWithProofs,
)
    requires
        tree.is_consistent(),
        holds(tree, root_of, contents),
        is_faithful_with_proofs(contents, root_of, instructions, output),
        final_noops_keep_indexes(contents, instructions),
    ensures
        ({
            let metadata = full_metadata(tree, instructions, output);
            let logs = metadata.witness->0.logs;
            &&& metadata.root_hash.0 == if logs.len() > 0 {
                logs.last().root_hash
            } else {
                tree.latest_root().root_hash.0
            }
            &&& tree.with_version(batch_root(metadata)).latest_root().root_hash
                == metadata.root_hash
        }),
{
    law_batch_applies_writes(
        tree,
        root_of,
        contents,
        instructions,
        TreeOutput::WithProofs(output),
    );
    lemma_last_witness_log(
        root_of,
        contents,
        instructions,
        output.logs@,
        tree.db.empty_subtree_hashes,
    );
}

/// The last log in the witness has the root hash of the contents after the batch.
proof fn lemma_last_witness_log(
    root_of: RootHashing,
    contents: Contents,
    instructions: Seq<TreeInstruction<StorageKey>>,
    logs: Seq<TreeLogEntryWithProof>,
    empty: Seq<ValueHash>,
)
    requires
        are_faithful_logs(contents, root_of, instructions, logs),
        final_noops_keep_indexes(contents, instructions),
    ensures
        ({
            let witness = witness_logs(logs, instructions, empty);
            root_of(after_instructions(contents, instructions)).0 == if witness.len() > 0 {
                witness.last().root_hash
            } else {
                root_of(contents).0
            }
        }),
    decreases logs.len(),
{
    let pairs = paired(logs, instructions);
    let f = |pair: AnsweredInstruction| witness_log(pair, empty);
    if logs.len() == 0 {
        assert(pairs =~= Seq::empty());
        assert(pairs.filter_map(f) =~= Seq::empty());
        assert(writes_of(instructions) =~= Seq::empty());
    } else {
        let rest = instructions.drop_last();
        let pair = (logs.last(), instructions.last());
        lemma_changes_of_faithful_logs(contents, root_of, instructions, logs);
        lemma_split_last(logs, instructions);
        lemma_split_last_faithful_log(contents, root_of, instructions, logs);
        lemma_after_last_instruction(contents, instructions);
        lemma_filter_map_push(paired(logs.drop_last(), rest), f, pair);
        if is_noop_update(pair.0.base, value_written(pair.1)) {
            let last = instructions.len() - 1;
            assert(instructions.take(last) =~= rest);
            assert(is_noop_at(contents, instructions, last)) by {
                let entry = written_entry(instructions.last())->0;
                assert(H256(entry.value.0) == entry.value);
            }
            lemma_final_noop(contents, instructions);
            lemma_last_witness_log(root_of, contents, rest, logs.drop_last(), empty);
        }
    }
}

/// If a batch ends with a write of the value that its leaf already has, the write changes nothing,
/// and the batch without it meets the same condition on indexes.
proof fn lemma_final_noop(contents: Contents, instructions: Seq<TreeInstruction<StorageKey>>)
    requires
        instructions.len() > 0,
        is_noop_at(contents, instructions, instructions.len() - 1),
        final_noops_keep_indexes(contents, instructions),
    ensures
        after_instructions(contents, instructions) == after_instructions(
            contents,
            instructions.drop_last(),
        ),
        final_noops_keep_indexes(contents, instructions.drop_last()),
{
    let rest = instructions.drop_last();
    let last = instructions.len() - 1;
    let before = after_instructions(contents, rest);
    assert(instructions.take(last) =~= rest);
    assert(are_noops_from(contents, instructions, last));
    assert(keeps_index_at(contents, instructions, last));
    lemma_after_last_instruction(contents, instructions);
    let entry = written_entry(instructions[last])->0;
    assert(after_write(before, entry) =~= before);
    assert forall|i: int|
        0 <= i < rest.len() && #[trigger] are_noops_from(
            contents,
            rest,
            i,
        ) implies keeps_index_at(contents, rest, i) by {
        assert(rest.take(i) =~= instructions.take(i));
        assert forall|j: int| i <= j < instructions.len() implies #[trigger] is_noop_at(
            contents,
            instructions,
            j,
        ) by {
            if j < rest.len() {
                assert(is_noop_at(contents, rest, j));
                assert(rest.take(j) =~= instructions.take(j));
            }
        }
        assert(are_noops_from(contents, instructions, i));
    }
}

/// Whether writes keep indexes does not depend on later writes.
proof fn lemma_noops_keep_indexes_drop_last(contents: Contents, entries: Seq<TreeEntry<StorageKey>>)
    requires
        entries.len() > 0,
        noops_keep_indexes(contents, entries),
    ensures
        noops_keep_indexes(contents, entries.drop_last()),
{
    assert forall|i: int| 0 <= i < entries.drop_last().len() implies {
        let before = after_writes(contents, entries.drop_last().take(i));
        let entry = #[trigger] entries.drop_last()[i];
        is_noop_write(before, entry) ==> before[leaf_key(entry)].leaf_index == entry.leaf_index
    } by {
        assert(entries.drop_last().take(i) =~= entries.take(i));
        assert(entries[i] == entries.drop_last()[i]);
    }
}

/// Whether all writes give leaves the values that they already have.
pub open spec fn are_noop_writes(contents: Contents, entries: Seq<TreeEntry<StorageKey>>) -> bool {
    forall|i: int| 0 <= i < entries.len() ==> is_noop_write(contents, #[trigger] entries[i])
}

/// Writes of the values that leaves already have change nothing, and count neither as initial nor as
/// repeated writes.
proof fn lemma_noop_writes(contents: Contents, entries: Seq<TreeEntry<StorageKey>>)
    requires
        noops_keep_indexes(contents, entries),
        are_noop_writes(contents, entries),
    ensures
        after_writes(contents, entries) == contents,
        initial_writes(answers_to_writes(contents, entries), entries).len() == 0,
        repeated_writes(answers_to_writes(contents, entries), entries).len() == 0,
    decreases entries.len(),
{
    let initial = |pair: (TreeLogEntry, TreeEntry<StorageKey>)| initial_write(pair);
    let repeated = |pair: (TreeLogEntry, TreeEntry<StorageKey>)| repeated_write(pair);
    let logs = answers_to_writes(contents, entries);
    if entries.len() == 0 {
        assert(paired(logs, entries) =~= Seq::empty());
        assert(paired(logs, entries).filter_map(initial) =~= Seq::empty());
        assert(paired(logs, entries).filter_map(repeated) =~= Seq::empty());
    } else {
        let rest = entries.drop_last();
        let entry = entries.last();
        let rest_logs = answers_to_writes(contents, rest);
        assert(entries =~= rest.push(entry));
        lemma_noops_keep_indexes_drop_last(contents, entries);
        assert forall|i: int| 0 <= i < rest.len() implies is_noop_write(
            contents,
            #[trigger] rest[i],
        ) by {
            assert(rest[i] == entries[i]);
        }
        lemma_noop_writes(contents, rest);
        lemma_answers_to_writes_push(contents, rest, entry);
        let log = answer_to_write(contents, entry);
        assert(entries[entries.len() - 1] == entry);
        assert(entries.take(entries.len() - 1) =~= rest);
        assert(after_write(contents, entry) =~= contents);
        assert(paired(logs, entries) =~= paired(rest_logs, rest).push((log, entry)));
        lemma_filter_map_push(paired(rest_logs, rest), initial, (log, entry));
        lemma_filter_map_push(paired(rest_logs, rest), repeated, (log, entry));
    }
}

/// A witness without writes consists of reads.
proof fn lemma_witness_of_reads(logs: Seq<StorageLogMetadataView>)
    requires
        logs.filter(|log: StorageLogMetadataView| log.is_write).len() == 0,
    ensures
        logs.filter(|log: StorageLogMetadataView| !log.is_write) == logs,
        forall|i: int| 0 <= i < logs.len() ==> !(#[trigger] logs[i]).is_write,
    decreases logs.len(),
{
    let is_write = |log: StorageLogMetadataView| log.is_write;
    let is_read = |log: StorageLogMetadataView| !log.is_write;
    if logs.len() == 0 {
        reveal(Seq::filter);
        assert(logs.filter(is_read) =~= logs);
    } else {
        let rest = logs.drop_last();
        assert(logs =~= rest.push(logs.last()));
        lemma_filter_push(rest, is_write, logs.last());
        lemma_filter_push(rest, is_read, logs.last());
        lemma_witness_of_reads(rest);
        assert forall|i: int| 0 <= i < logs.len() implies !(#[trigger] logs[i]).is_write by {
            if i < rest.len() {
                assert(logs[i] == rest[i]);
            }
        }
    }
}

/// A batch of reads and of writes that give leaves the values they already have keeps the root hash
/// and the number of leaves, whatever the mode is, and has no initial or repeated writes. In the full
/// mode its witness consists of its reads. The tree keeps its contents and expects the next batch.
pub proof fn law_noop_batch_changes_nothing(
    tree: ZkSyncTreeView,
    root_of: RootHashing,
    contents: Contents,
    instructions: Seq<TreeInstruction<StorageKey>>,
    output: TreeOutput,
)
    requires
        tree.is_consistent(),
        holds(tree, root_of, contents),
        is_faithful(contents, root_of, instructions, output),
        noops_keep_indexes(contents, writes_of(instructions)),
        are_noop_writes(contents, writes_of(instructions)),
    ensures
        ({
            let metadata = batch_metadata(tree, instructions, output);
            let next_tree = tree.with_version(batch_root(metadata));
            &&& metadata.root_hash == tree.latest_root().root_hash
            &&& metadata.rollup_last_leaf_index == tree.latest_root().leaf_count + 1
            &&& metadata.initial_writes.len() == 0
            &&& metadata.repeated_writes.len() == 0
            &&& output is WithProofs ==> {
                &&& metadata.witness matches Some(witness)
                &&& witness.logs.len() == instructions.len() - writes_of(instructions).len()
                &&& forall|i: int|
                    0 <= i < witness.logs.len() ==> !(#[trigger] witness.logs[i]).is_write
            }
            &&& holds(next_tree, root_of, contents)
            &&& next_tree.latest_root() == tree.latest_root()
            &&& next_tree.versions().len() == tree.versions().len() + 1
        }),
{
    let metadata = batch_metadata(tree, instructions, output);
    law_batch_applies_writes(tree, root_of, contents, instructions, output);
    law_batch_becomes_latest(tree, batch_root(metadata));
    lemma_noop_writes(contents, writes_of(instructions));
    if let TreeOutput::WithProofs(output) = output {
        let empty = tree.db.empty_subtree_hashes;
        lemma_changes_of_faithful_logs(contents, root_of, instructions, output.logs@);
        law_witness_covers_batch(output.logs@, instructions, empty);
        lemma_witness_of_reads(witness_logs(output.logs@, instructions, empty));
    }
}

/// Whether no leaf is written twice.
pub open spec fn have_distinct_keys(entries: Seq<TreeEntry<StorageKey>>) -> bool {
    forall|i: int, j: int|
        0 <= i < j < entries.len() ==> leaf_key(#[trigger] entries[i]) != leaf_key(
            #[trigger] entries[j],
        )
}

/// Processing the same storage logs once more changes nothing, as long as no leaf is written twice in
/// them: the second batch has no initial or repeated writes, keeps the root hash and the number of
/// leaves, and in the full mode its witness consists of its reads.
pub proof fn law_repeated_batch_changes_nothing(
    tree: ZkSyncTreeView,
    root_of: RootHashing,
    contents: Contents,
    instructions: Seq<TreeInstruction<StorageKey>>,
    output: TreeOutput,
    repeated_output: TreeOutput,
)
    requires
        tree.is_consistent(),
        holds(tree, root_of, contents),
        have_distinct_keys(writes_of(instructions)),
        is_faithful(contents, root_of, instructions, output),
        is_faithful(
            after_instructions(contents, instructions),
            root_of,
            instructions,
            repeated_output,
        ),
    ensures
        ({
            let first = batch_metadata(tree, instructions, output);
            let next_tree = tree.with_version(batch_root(first));
            let second = batch_metadata(next_tree, instructions, repeated_output);
            let last_tree = next_tree.with_version(batch_root(second));
            &&& second.root_hash == first.root_hash
            &&& second.rollup_last_leaf_index == first.rollup_last_leaf_index
            &&& second.initial_writes.len() == 0
            &&& second.repeated_writes.len() == 0
            &&& repeated_output is WithProofs ==> {
                &&& second.witness matches Some(witness)
                &&& witness.logs.len() == instructions.len() - writes_of(instructions).len()
                &&& forall|i: int|
                    0 <= i < witness.logs.len() ==> !(#[trigger] witness.logs[i]).is_write
            }
            &&& last_tree.latest_root() == next_tree.latest_root()
            &&& last_tree.versions().len() == next_tree.versions().len() + 1
        }),
{
    let writes = writes_of(instructions);
    let next = after_instructions(contents, instructions);
    let next_tree = tree.with_version(batch_root(batch_metadata(tree, instructions, output)));
    law_batch_applies_writes(tree, root_of, contents, instructions, output);
    lemma_written_leaves(contents, writes);
    law_noop_batch_changes_nothing(next_tree, root_of, next, instructions, repeated_output);
}

/// Writes to distinct leaves change nothing when they are repeated.
proof fn lemma_written_leaves(contents: Contents, entries: Seq<TreeEntry<StorageKey>>)
    requires
        have_distinct_keys(entries),
    ensures
        are_noop_writes(after_writes(contents, entries), entries),
        noops_keep_indexes(after_writes(contents, entries), entries),
{
    let next = after_writes(contents, entries);
    assert forall|i: int| 0 <= i < entries.len() implies is_noop_write(
        next,
        #[trigger] entries[i],
    ) by {
        lemma_written_leaf(contents, entries, i);
    }
    assert forall|i: int| 0 <= i < entries.len() implies {
        let before = after_writes(next, entries.take(i));
        let entry = #[trigger] entries[i];
        is_noop_write(before, entry) ==> before[leaf_key(entry)].leaf_index == entry.leaf_index
    } by {
        lemma_written_leaf(contents, entries, i);
        lemma_other_leaves_are_kept(next, entries.take(i), leaf_key(entries[i]));
    }
}

/// After writes to distinct leaves, each leaf is as written.
proof fn lemma_written_leaf(contents: Contents, entries: Seq<TreeEntry<StorageKey>>, i: int)
    requires
        have_distinct_keys(entries),
        0 <= i < entries.len(),
    ensures
        ({
            let next = after_writes(contents, entries);
            &&& next.contains_key(leaf_key(entries[i]))
            &&& next[leaf_key(entries[i])] == (Leaf {
                value: entries[i].value,
                leaf_index: entries[i].leaf_index,
            })
        }),
    decreases entries.len(),
{
    let rest = entries.drop_last();
    if i < rest.len() {
        assert forall|j: int, k: int| 0 <= j < k < rest.len() implies leaf_key(#[trigger] rest[j])
            != leaf_key(#[trigger] rest[k]) by {
            assert(leaf_key(entries[j]) != leaf_key(entries[k]));
        }
        lemma_written_leaf(contents, rest, i);
        assert(rest[i] == entries[i]);
        assert(leaf_key(entries[i]) != leaf_key(entries[entries.len() - 1]));
    }
}

/// Writes keep the leaves with other keys.
proof fn lemma_other_leaves_are_kept(
    contents: Contents,
    entries: Seq<TreeEntry<StorageKey>>,
    key: Key,
)
    requires
        forall|i: int| 0 <= i < entries.len() ==> leaf_key(#[trigger] entries[i]) != key,
    ensures
        after_writes(contents, entries).contains_key(key) == contents.contains_key(key),
        contents.contains_key(key) ==> after_writes(contents, entries)[key] == contents[key],
    decreases entries.len(),
{
    if entries.len() > 0 {
        let rest = entries.drop_last();
        assert forall|i: int| 0 <= i < rest.len() implies leaf_key(#[trigger] rest[i]) != key by {
            assert(rest[i] == entries[i]);
        }
        lemma_other_leaves_are_kept(contents, rest, key);
        assert(leaf_key(entries[entries.len() - 1]) != key);
    }
}

/// Keys of the leaves that are written.
pub open spec fn written_keys(entries: Seq<TreeEntry<StorageKey>>) -> Set<Key> {
    entries.map_values(|entry: TreeEntry<StorageKey>| leaf_key(entry)).to_set()
}

/// Successive batches change the contents as a single batch with all their storage logs does.
pub proof fn law_batches_add_up(
    contents: Contents,
    first: Seq<TreeInstruction<StorageKey>>,
    second: Seq<TreeInstruction<StorageKey>>,
)
    ensures
        after_instructions(after_instructions(contents, first), second) == after_instructions(
            contents,
            first + second,
        ),
    decreases second.len(),
{
    if second.len() == 0 {
        assert(first + second =~= first);
        assert(writes_of(second) =~= Seq::empty());
    } else {
        law_batches_add_up(contents, first, second.drop_last());
        assert((first + second).drop_last() =~= first + second.drop_last());
        lemma_after_last_instruction(contents, first + second);
        lemma_after_last_instruction(after_instructions(contents, first), second);
    }
}

/// A tree that starts empty has a leaf for each key that has been written, no matter how many times:
/// the number of leaves is the number of distinct keys.
pub proof fn law_leaves_are_written_keys(instructions: Seq<TreeInstruction<StorageKey>>)
    ensures
        after_instructions(Map::empty(), instructions).dom() == written_keys(
            writes_of(instructions),
        ),
        after_instructions(Map::empty(), instructions).len() == written_keys(
            writes_of(instructions),
        ).len(),
{
    lemma_leaves_are_written_keys(writes_of(instructions));
}

/// Successive writes to an empty tree leave a leaf for each key.
proof fn lemma_leaves_are_written_keys(entries: Seq<TreeEntry<StorageKey>>)
    ensures
        after_writes(Map::empty(), entries).dom() == written_keys(entries),
    decreases entries.len(),
{
    let key = |entry: TreeEntry<StorageKey>| leaf_key(entry);
    let keys = entries.map_values(key);
    if entries.len() == 0 {
        assert(after_writes(Map::empty(), entries).dom() =~= written_keys(entries));
    } else {
        let rest = entries.drop_last();
        let rest_keys = rest.map_values(key);
        lemma_leaves_are_written_keys(rest);
        assert(keys =~= rest_keys.push(leaf_key(entries.last())));
        assert forall|k: Key| #[trigger] keys.to_set().contains(k) == rest_keys.to_set().insert(
            leaf_key(entries.last()),
        ).contains(k) by {
            if rest_keys.contains(k) {
                let i = choose|i: int| 0 <= i < rest_keys.len() && rest_keys[i] == k;
                assert(keys[i] == k);
            }
            if k == leaf_key(entries.last()) {
                assert(keys[keys.len() - 1] == k);
            }
        }
        assert(keys.to_set() =~= rest_keys.to_set().insert(leaf_key(entries.last())));
        assert(after_writes(Map::empty(), entries).dom() =~= after_writes(
            Map::empty(),
            rest,
        ).dom().insert(leaf_key(entries.last())));
    }
}

/// The number of leaves never shrinks. In particular, a tree that is not empty stays so, whatever
/// batches it processes; an empty one stays empty as long as it only reads; and right after a batch
/// the tree is empty if and only if the index reported for the next leaf is 1.
pub proof fn law_tree_does_not_become_empty(
    tree: ZkSyncTreeView,
    root_of: RootHashing,
    contents: Contents,
    instructions: Seq<TreeInstruction<StorageKey>>,
    output: TreeOutput,
)
    requires
        tree.is_consistent(),
        holds(tree, root_of, contents),
        is_faithful(contents, root_of, instructions, output),
    ensures
        ({
            let metadata = batch_metadata(tree, instructions, output);
            let next_root = tree.with_version(batch_root(metadata)).latest_root();
            &&& tree.latest_root().leaf_count <= next_root.leaf_count
            &&& next_root.leaf_count == 0 <==> tree.latest_root().leaf_count == 0 && writes_of(
                instructions,
            ).len() == 0
            &&& next_root.leaf_count == 0 <==> metadata.rollup_last_leaf_index == 1
        }),
{
    let writes = writes_of(instructions);
    let next = after_instructions(contents, instructions);
    law_batch_applies_writes(tree, root_of, contents, instructions, output);
    lemma_writes_add_leaves(contents, writes);
    if writes.len() > 0 {
        assert(next.dom().contains(leaf_key(writes.last())));
        assert(next.len() > 0) by {
            if next.dom().len() == 0 {
                vstd::set_lib::lemma_set_empty_equivalency_len(next.dom());
                assert(next.dom() =~= Set::empty());
            }
        }
    }
}

} // verus!
