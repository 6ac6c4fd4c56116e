//! Laws that relate the operations of the tree.

use vstd::prelude::*;

use crate::tree::database::TreeRoot;
use crate::tree::domain::{
    change, changes_of, full_metadata, lightweight_metadata, TreeMetadataView, ZkSyncTreeView,
};
use crate::tree::entries::{
    writes_of, written_entry, BlockOutput, BlockOutputWithProofs, StorageKey, TreeEntry,
    TreeInstruction, TreeLogEntry, TreeLogEntryWithProof, TREE_DEPTH,
};
use crate::tree::witness::{
    is_answered, is_noop_update, value_written, witness_log, witness_logs, AnsweredInstruction,
    StorageLogMetadataView,
};
use crate::tree::writes::{
    initial_write, initial_writes, paired, repeated_write, repeated_writes, InitialStorageWrite,
    RepeatedStorageWrite,
};
use crate::types::ValueHash;

verus! {

/// The tree after successive L1 batches that lead to the specified roots.
pub open spec fn after_batches(tree: ZkSyncTreeView, roots: Seq<TreeRoot>) -> ZkSyncTreeView
    decreases roots.len(),
{
    if roots.len() == 0 {
        tree
    } else {
        after_batches(tree, roots.drop_last()).with_version(roots.last())
    }
}

/// Processing an L1 batch adds a single version to the tree, which becomes the latest one: the tree
/// has the root of the batch, and expects the next L1 batch.
pub proof fn law_batch_becomes_latest(tree: ZkSyncTreeView, root: TreeRoot)
    requires
        tree.is_consistent(),
    ensures
        tree.with_version(root).versions() == tree.versions().push(Some(root)),
        tree.with_version(root).latest_root() == root,
{
    assert(tree.with_version(root).versions() =~= tree.versions().push(Some(root)));
}

/// L1 batches accumulate without being saved: whatever batches are processed, a reader sees the same
/// saved state as before.
pub proof fn law_batches_are_not_seen_by_reader(tree: ZkSyncTreeView, roots: Seq<TreeRoot>)
    ensures
        after_batches(tree, roots).db == tree.db,
        after_batches(tree, roots).retained_version_count == tree.retained_version_count,
        after_batches(tree, roots).unsaved_versions == tree.unsaved_versions + roots.map_values(
            |root: TreeRoot| Some(root),
        ),
        after_batches(tree, roots).thread_pool == tree.thread_pool,
        after_batches(tree, roots).mode == tree.mode,
        after_batches(tree, roots).pruning_enabled == tree.pruning_enabled,
    decreases roots.len(),
{
    let some = |root: TreeRoot| Some(root);
    if roots.len() > 0 {
        law_batches_are_not_seen_by_reader(tree, roots.drop_last());
        assert(roots.map_values(some) =~= roots.drop_last().map_values(some).push(
            Some(roots.last()),
        ));
    }
    assert(after_batches(tree, roots).unsaved_versions =~= tree.unsaved_versions
        + roots.map_values(some));
}

/// As long as batches do not remove leaves, a tree that is not empty stays so, whatever batches are
/// processed. Batches that keep the number of leaves leave an empty tree empty.
pub proof fn law_nonempty_tree_stays_nonempty(tree: ZkSyncTreeView, roots: Seq<TreeRoot>)
    requires
        tree.is_consistent(),
        forall|i: int|
            0 <= i < roots.len() ==> (#[trigger] roots[i]).leaf_count >= after_batches(
                tree,
                roots.take(i),
            ).latest_root().leaf_count,
    ensures
        after_batches(tree, roots).latest_root().leaf_count >= tree.latest_root().leaf_count,
        tree.latest_root().leaf_count > 0 ==> after_batches(tree, roots).latest_root().leaf_count
            > 0,
        (forall|i: int|
            0 <= i < roots.len() ==> (#[trigger] roots[i]).leaf_count
                == tree.latest_root().leaf_count) ==> after_batches(
            tree,
            roots,
        ).latest_root().leaf_count == tree.latest_root().leaf_count,
    decreases roots.len(),
{
    if roots.len() > 0 {
        let last = roots.len() - 1;
        let rest = roots.drop_last();
        assert(roots.take(last) =~= rest);
        assert(roots[last].leaf_count >= after_batches(tree, rest).latest_root().leaf_count);
        assert forall|i: int| 0 <= i < rest.len() implies (#[trigger] rest[i]).leaf_count
            >= after_batches(tree, rest.take(i)).latest_root().leaf_count by {
            assert(rest.take(i) =~= roots.take(i));
            assert(rest[i] == roots[i]);
        }
        law_nonempty_tree_stays_nonempty(tree, rest);
        law_batches_are_not_seen_by_reader(tree, rest);
        law_batch_becomes_latest(after_batches(tree, rest), roots.last());
    }
}

/// Resetting the tree discards whatever batches have been processed since the latest save.
pub proof fn law_reset_discards_batches(tree: ZkSyncTreeView, roots: Seq<TreeRoot>)
    ensures
        after_batches(tree, roots).after_reset() == tree.after_reset(),
        tree.after_reset().versions() == tree.db.versions,
{
    law_batches_are_not_seen_by_reader(tree, roots);
    assert(after_batches(tree, roots).after_reset() =~= tree.after_reset());
    assert(tree.after_reset().versions() =~= tree.db.versions);
}

/// Saving makes all accumulated changes visible to readers, and does not change the tree itself.
pub proof fn law_save_publishes_changes(tree: ZkSyncTreeView)
    requires
        tree.is_consistent(),
    ensures
        tree.after_save().is_consistent(),
        tree.after_save().db.versions == tree.versions(),
        tree.after_save().versions() == tree.versions(),
        tree.after_save().db.latest_root() == tree.latest_root(),
        tree.after_save().latest_root() == tree.latest_root(),
{
    assert(tree.after_save().versions() =~= tree.versions());
}

/// Saved changes survive a reset, and saving again changes nothing.
pub proof fn law_save_is_durable(tree: ZkSyncTreeView)
    requires
        tree.is_consistent(),
    ensures
        tree.after_save().after_reset() == tree.after_save(),
        tree.after_save().after_save() == tree.after_save(),
{
    law_save_publishes_changes(tree);
    assert(tree.after_save().after_reset() =~= tree.after_save());
    assert(tree.after_save().after_save() =~= tree.after_save());
}

/// Reverting overwrites all unsaved changes, however many batches they are, and does not touch the
/// saved state. If the last batch to keep is saved, the tree has the root it had after that batch,
/// and expects the batch after it.
pub proof fn law_revert_restores_saved_version(
    tree: ZkSyncTreeView,
    roots: Seq<TreeRoot>,
    last_l1_batch_to_keep: nat,
)
    ensures
        ({
            let reverted = after_batches(tree, roots).after_revert(last_l1_batch_to_keep + 1);
            &&& reverted == tree.after_revert(last_l1_batch_to_keep + 1)
            &&& reverted.db == tree.db
            &&& reverted.is_consistent()
            &&& last_l1_batch_to_keep < tree.db.versions.len() ==> {
                &&& reverted.versions() == tree.db.versions.take(last_l1_batch_to_keep as int + 1)
                &&& reverted.versions().last() == tree.db.versions[last_l1_batch_to_keep as int]
            }
            &&& last_l1_batch_to_keep >= tree.db.versions.len() ==> reverted.versions()
                == tree.db.versions
        }),
{
    law_batches_are_not_seen_by_reader(tree, roots);
    let reverted = after_batches(tree, roots).after_revert(last_l1_batch_to_keep + 1);
    assert(reverted =~= tree.after_revert(last_l1_batch_to_keep + 1));
    if last_l1_batch_to_keep < tree.db.versions.len() {
        assert(reverted.versions() =~= tree.db.versions.take(last_l1_batch_to_keep as int + 1));
    } else {
        assert(reverted.versions() =~= tree.db.versions);
    }
}

/// Reverting undoes batches even after they have been saved: a tree that has processed and saved
/// batches, and is then reverted to the version it had before, has the versions it had before.
pub proof fn law_revert_undoes_saved_batches(tree: ZkSyncTreeView, roots: Seq<TreeRoot>)
    requires
        tree.is_consistent(),
        tree.versions().len() > 0,
    ensures
        ({
            let reverted = after_batches(tree, roots).after_save().after_revert(
                tree.versions().len(),
            );
            &&& reverted.versions() == tree.versions()
            &&& reverted.latest_root() == tree.latest_root()
        }),
{
    law_batches_are_not_seen_by_reader(tree, roots);
    let reverted = after_batches(tree, roots).after_save().after_revert(tree.versions().len());
    assert(reverted.versions() =~= tree.versions());
}

/// As long as nothing is saved in between, only the last of successive reverts counts.
pub proof fn law_last_revert_counts(tree: ZkSyncTreeView, first: nat, second: nat)
    ensures
        tree.after_revert(first).after_revert(second) == tree.after_revert(second),
{
    assert(tree.after_revert(first).after_revert(second) =~= tree.after_revert(second));
}

/// Pruning removes saved versions without changing the numbers of the others: the tree expects the
/// same batch as before. Versions before the first retained one are no longer available, and all
/// others stay as they are. As long as the latest version is retained, both the tree and its readers
/// have the same root as before.
pub proof fn law_pruning_keeps_retained_versions(tree: ZkSyncTreeView, first_retained_version: nat)
    requires
        tree.is_consistent(),
    ensures
        ({
            let pruned_tree = tree.after_pruning(first_retained_version);
            let versions = tree.db.versions;
            let pruned_versions = pruned_tree.db.versions;
            &&& pruned_tree.is_consistent()
            &&& pruned_versions.len() == versions.len()
            &&& pruned_tree.versions().len() == tree.versions().len()
            &&& forall|i: int|
                0 <= i < versions.len() && i < first_retained_version ==> (
                #[trigger] pruned_versions[i]) is None
            &&& forall|i: int|
                first_retained_version <= i < versions.len() ==> (#[trigger] pruned_versions[i])
                    == versions[i]
            &&& first_retained_version < versions.len() ==> pruned_tree.db.latest_root()
                == tree.db.latest_root()
            &&& first_retained_version < tree.versions().len() ==> pruned_tree.latest_root()
                == tree.latest_root()
        }),
{
    let pruned_tree = tree.after_pruning(first_retained_version);
    assert(pruned_tree.versions().len() == tree.versions().len());
    if first_retained_version < tree.versions().len() {
        assert(pruned_tree.versions().last() == tree.versions().last());
    }
}

/// Whether the logs answer the instructions one by one: each write is answered by a change of the
/// tree, and each read by a read.
pub open spec fn answers(
    logs: Seq<TreeLogEntryWithProof>,
    instructions: Seq<TreeInstruction<StorageKey>>,
) -> bool {
    &&& logs.len() == instructions.len()
    &&& forall|i: int|
        0 <= i < logs.len() ==> (#[trigger] logs[i]).base.spec_is_read() == (
        instructions[i] is Read)
}

/// The initial write that an answered instruction performs.
pub open spec fn instruction_initial_write(pair: AnsweredInstruction) -> Option<
    InitialStorageWrite,
> {
    match pair.1 {
        TreeInstruction::Write(entry) => initial_write((pair.0.base, entry)),
        TreeInstruction::Read(_) => None,
    }
}

/// The repeated write that an answered instruction performs.
pub open spec fn instruction_repeated_write(pair: AnsweredInstruction) -> Option<
    RepeatedStorageWrite,
> {
    match pair.1 {
        TreeInstruction::Write(entry) => repeated_write((pair.0.base, entry)),
        TreeInstruction::Read(_) => None,
    }
}

/// Pairing sequences of the same length is compatible with adding an element to each of them.
proof fn lemma_paired_push<A, B>(left: Seq<A>, right: Seq<B>, x: A, y: B)
    requires
        left.len() == right.len(),
    ensures
        paired(left.push(x), right.push(y)) == paired(left, right).push((x, y)),
{
    assert(paired(left.push(x), right.push(y)) =~= paired(left, right).push((x, y)));
}

/// Adding an element to a sequence adds its image, if there is one, to the filtered sequence.
pub(crate) proof fn lemma_filter_map_push<A, B>(s: Seq<A>, f: spec_fn(A) -> Option<B>, x: A)
    ensures
        s.push(x).filter_map(f) == match f(x) {
            Some(y) => s.filter_map(f).push(y),
            None => s.filter_map(f),
        },
{
    assert(s.push(x).drop_last() =~= s);
    if f(x) is Some {
        assert(s.filter_map(f) + seq![f(x)->0] =~= s.filter_map(f).push(f(x)->0));
    }
}

/// Splits the last answered instruction off the sequences of logs and instructions.
pub(crate) proof fn lemma_split_last(
    logs: Seq<TreeLogEntryWithProof>,
    instructions: Seq<TreeInstruction<StorageKey>>,
)
    requires
        answers(logs, instructions),
        logs.len() > 0,
    ensures
        answers(logs.drop_last(), instructions.drop_last()),
        paired(logs, instructions) == paired(logs.drop_last(), instructions.drop_last()).push(
            (logs.last(), instructions.last()),
        ),
        logs.last().base.spec_is_read() == (instructions.last() is Read),
        changes_of(logs) == match change(logs.last()) {
            Some(base) => changes_of(logs.drop_last()).push(base),
            None => changes_of(logs.drop_last()),
        },
        writes_of(instructions) == match written_entry(instructions.last()) {
            Some(entry) => writes_of(instructions.drop_last()).push(entry),
            None => writes_of(instructions.drop_last()),
        },
{
    assert(logs =~= logs.drop_last().push(logs.last()));
    assert(instructions =~= instructions.drop_last().push(instructions.last()));
    lemma_paired_push(
        logs.drop_last(),
        instructions.drop_last(),
        logs.last(),
        instructions.last(),
    );
    lemma_filter_map_push(
        logs.drop_last(),
        |log: TreeLogEntryWithProof| change(log),
        logs.last(),
    );
    lemma_filter_map_push(
        instructions.drop_last(),
        |instruction: TreeInstruction<StorageKey>| written_entry(instruction),
        instructions.last(),
    );
    assert forall|i: int| 0 <= i < logs.drop_last().len() implies (
    #[trigger] logs.drop_last()[i]).base.spec_is_read() == (instructions.drop_last()[i] is Read) by {
        assert(logs[i].base.spec_is_read() == (instructions[i] is Read));
    }
}

/// In the full mode, where reads are applied along with writes, the initial and repeated writes of a
/// batch are exactly those that its instructions perform, in the order of the instructions.
pub proof fn law_writes_follow_instructions(
    logs: Seq<TreeLogEntryWithProof>,
    instructions: Seq<TreeInstruction<StorageKey>>,
)
    requires
        answers(logs, instructions),
    ensures
        changes_of(logs).len() == writes_of(instructions).len(),
        initial_writes(changes_of(logs), writes_of(instructions)) == paired(
            logs,
            instructions,
        ).filter_map(|pair| instruction_initial_write(pair)),
        repeated_writes(changes_of(logs), writes_of(instructions)) == paired(
            logs,
            instructions,
        ).filter_map(|pair| instruction_repeated_write(pair)),
    decreases logs.len(),
{
    let changes = changes_of(logs);
    let writes = writes_of(instructions);
    let pairs = paired(logs, instructions);
    let of_pair_initial = |pair: (TreeLogEntry, TreeEntry<StorageKey>)| initial_write(pair);
    let of_pair_repeated = |pair: (TreeLogEntry, TreeEntry<StorageKey>)| repeated_write(pair);
    let initial = |pair: AnsweredInstruction| instruction_initial_write(pair);
    let repeated = |pair: AnsweredInstruction| instruction_repeated_write(pair);
    if logs.len() == 0 {
        assert(paired(changes, writes) =~= Seq::empty());
        assert(pairs =~= Seq::empty());
        assert(pairs.filter_map(initial) =~= Seq::empty());
        assert(pairs.filter_map(repeated) =~= Seq::empty());
    } else {
        let log = logs.last();
        let instruction = instructions.last();
        let rest = paired(logs.drop_last(), instructions.drop_last());
        law_writes_follow_instructions(logs.drop_last(), instructions.drop_last());
        lemma_split_last(logs, instructions);
        lemma_filter_map_push(rest, initial, (log, instruction));
        lemma_filter_map_push(rest, repeated, (log, instruction));
        if let TreeInstruction::Write(entry) = instruction {
            let rest_changes = changes_of(logs.drop_last());
            let rest_writes = writes_of(instructions.drop_last());
            lemma_paired_push(rest_changes, rest_writes, log.base, entry);
            lemma_filter_map_push(
                paired(rest_changes, rest_writes),
                of_pair_initial,
                (log.base, entry),
            );
            lemma_filter_map_push(
                paired(rest_changes, rest_writes),
                of_pair_repeated,
                (log.base, entry),
            );
        }
    }
}

/// Both modes produce the same metadata on a batch, except for the witness, as long as the Merkle
/// tree does the same on the writes of the batch.
pub proof fn law_modes_agree(
    tree: ZkSyncTreeView,
    instructions: Seq<TreeInstruction<StorageKey>>,
    with_proofs: BlockOutputWithProofs,
    without_proofs: BlockOutput,
)
    requires
        without_proofs.logs@ == changes_of(with_proofs.logs@),
        without_proofs.leaf_count == with_proofs.leaf_count,
        without_proofs.root_hash == full_metadata(tree, instructions, with_proofs).root_hash,
    ensures
        lightweight_metadata(instructions, without_proofs) == (TreeMetadataView {
            witness: None,
            ..full_metadata(tree, instructions, with_proofs)
        }),
{
}

/// Enumeration indexes of leaves continue from batch to batch: the witness of a batch starts with the
/// index that the batch before it has reported for the next leaf.
pub proof fn law_enumeration_continues(
    tree: ZkSyncTreeView,
    instructions: Seq<TreeInstruction<StorageKey>>,
    output: BlockOutputWithProofs,
    next_instructions: Seq<TreeInstruction<StorageKey>>,
    next_output: BlockOutputWithProofs,
)
    requires
        tree.is_consistent(),
        output.leaf_count < u64::MAX,
    ensures
        ({
            let metadata = full_metadata(tree, instructions, output);
            let root = TreeRoot { root_hash: metadata.root_hash, leaf_count: output.leaf_count };
            let next_tree = tree.with_version(root);
            full_metadata(next_tree, next_instructions, next_output).witness->0.next_enumeration_index
                == metadata.rollup_last_leaf_index
        }),
{
    let metadata = full_metadata(tree, instructions, output);
    let root = TreeRoot { root_hash: metadata.root_hash, leaf_count: output.leaf_count };
    law_batch_becomes_latest(tree, root);
}

/// Each storage log in a witness has a sibling hash for each level of the tree. An update in a
/// witness changes the value of its leaf: no-op updates are omitted.
pub proof fn law_witness_is_complete_and_omits_noops(
    logs: Seq<TreeLogEntryWithProof>,
    instructions: Seq<TreeInstruction<StorageKey>>,
    empty: Seq<ValueHash>,
)
    requires
        empty.len() == TREE_DEPTH + 1,
        forall|i: int|
            0 <= i < paired(logs, instructions).len() ==> is_answered(
                #[trigger] paired(logs, instructions)[i],
            ),
    ensures
        forall|i: int| #![trigger witness_logs(logs, instructions, empty)[i]]
            0 <= i < witness_logs(logs, instructions, empty).len() ==> {
                let log = witness_logs(logs, instructions, empty)[i];
                &&& log.merkle_paths.len() == TREE_DEPTH
                &&& log.is_write && !log.first_write ==> log.value_read != log.value_written
            },
{
    let pairs = paired(logs, instructions);
    let witness = witness_logs(logs, instructions, empty);
    let f = |pair: AnsweredInstruction| witness_log(pair, empty);
    assert forall|i: int| #![trigger witness[i]] 0 <= i < witness.len() implies {
        let log = witness[i];
        &&& log.merkle_paths.len() == TREE_DEPTH
        &&& log.is_write && !log.first_write ==> log.value_read != log.value_written
    } by {
        assert(witness.contains(witness[i]));
        pairs.lemma_filter_map_contains(f, witness[i]);
        let pair = choose|pair: AnsweredInstruction| #[trigger]
            pairs.contains(pair) && f(pair) == Some(witness[i]);
        let j = choose|j: int| 0 <= j < pairs.len() && pairs[j] == pair;
        assert(is_answered(pairs[j]));
    }
}

/// Adding an element to a sequence adds it to the filtered sequence if it satisfies the predicate.
pub(crate) proof fn lemma_filter_push<A>(s: Seq<A>, pred: spec_fn(A) -> bool, x: A)
    ensures
        s.push(x).filter(pred) == if pred(x) {
            s.filter(pred).push(x)
        } else {
            s.filter(pred)
        },
{
    reveal(Seq::filter);
    assert(s.push(x).drop_last() =~= s);
}

/// The writes in a witness are as many as the initial and repeated writes of the batch, and the
/// reads in it are as many as the reads among the instructions: nothing but no-op updates is omitted.
pub proof fn law_witness_covers_batch(
    logs: Seq<TreeLogEntryWithProof>,
    instructions: Seq<TreeInstruction<StorageKey>>,
    empty: Seq<ValueHash>,
)
    requires
        answers(logs, instructions),
    ensures
        witness_logs(logs, instructions, empty).filter(
            |log: StorageLogMetadataView| log.is_write,
        ).len() == initial_writes(changes_of(logs), writes_of(instructions)).len()
            + repeated_writes(changes_of(logs), writes_of(instructions)).len(),
        witness_logs(logs, instructions, empty).filter(
            |log: StorageLogMetadataView| !log.is_write,
        ).len() == instructions.len() - writes_of(instructions).len(),
    decreases logs.len(),
{
    let pairs = paired(logs, instructions);
    let f = |pair: AnsweredInstruction| witness_log(pair, empty);
    let initial = |pair: AnsweredInstruction| instruction_initial_write(pair);
    let repeated = |pair: AnsweredInstruction| instruction_repeated_write(pair);
    let is_write = |log: StorageLogMetadataView| log.is_write;
    let is_read = |log: StorageLogMetadataView| !log.is_write;
    law_writes_follow_instructions(logs, instructions);
    if logs.len() == 0 {
        reveal(Seq::filter);
        assert(pairs =~= Seq::empty());
        assert(pairs.filter_map(f) =~= Seq::empty());
        assert(pairs.filter_map(initial) =~= Seq::empty());
        assert(pairs.filter_map(repeated) =~= Seq::empty());
        assert(writes_of(instructions) =~= Seq::empty());
    } else {
        let log = logs.last();
        let instruction = instructions.last();
        let pair = (log, instruction);
        let rest = paired(logs.drop_last(), instructions.drop_last());
        let rest_witness = witness_logs(logs.drop_last(), instructions.drop_last(), empty);
        lemma_split_last(logs, instructions);
        law_writes_follow_instructions(logs.drop_last(), instructions.drop_last());
        law_witness_covers_batch(logs.drop_last(), instructions.drop_last(), empty);
        lemma_filter_map_push(rest, f, pair);
        lemma_filter_map_push(rest, initial, pair);
        lemma_filter_map_push(rest, repeated, pair);
        if let Some(witness) = witness_log(pair, empty) {
            lemma_filter_push(rest_witness, is_write, witness);
            lemma_filter_push(rest_witness, is_read, witness);
        }
        if let TreeInstruction::Write(entry) = instruction {
            if let TreeLogEntry::Updated { previous_value, .. } = log.base {
                // Both the witness and the repeated writes omit updates to the same value.
                assert(is_noop_update(log.base, value_written(instruction)) == (previous_value
                    == entry.value));
            }
        }
    }
}

} // verus!
