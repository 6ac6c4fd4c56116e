//! What the witness of a batch tells the prover.

use vstd::prelude::*;

use crate::tree::contents::{
    after_instructions, answer, are_faithful_logs, lemma_after_last_instruction, Contents,
    RootHashing,
};
use crate::tree::entries::{
    StorageKey, TreeInstruction, TreeLogEntry, TreeLogEntryWithProof,
};
use crate::tree::laws::lemma_filter_map_push;
use crate::tree::witness::{
    are_answered, compose_witness, compose_witness_log, is_answered, witness_log, witness_logs,
    AnsweredInstruction, EmptySubtreeHashes, PrepareBasicCircuitsJob, StorageLogMetadata,
    StorageLogMetadataView,
};
use crate::tree::writes::paired;
use crate::types::{Key, ValueHash, H256};

verus! {

/// A table of empty subtrees gives back the hashes that it is made of, one for each height of a tree
/// with 256 levels. There is no table with more or fewer hashes.
pub proof fn law_empty_subtree_hashes_are_given_back(
    hashes: Vec<ValueHash>,
    table: Option<EmptySubtreeHashes>,
    height: usize,
    hash: ValueHash,
    empty_tree_hash: ValueHash,
)
    requires
        call_ensures(EmptySubtreeHashes::new, (hashes,), table),
        table is Some ==> {
            &&& call_ensures(EmptySubtreeHashes::empty_subtree_hash, (&table->0, height), hash)
            &&& call_ensures(EmptySubtreeHashes::empty_tree_hash, (&table->0,), empty_tree_hash)
        },
    ensures
        table is Some <==> hashes@.len() == 257,
        table is Some ==> hash == hashes@[height as int] && empty_tree_hash == hashes@[256],
{
}

/// Whether all bytes of a value are zero.
pub open spec fn is_zero(value: [u8; 32]) -> bool {
    forall|i: int| 0 <= i < 32 ==> #[trigger] value[i] == 0
}

/// Whether an instruction writes the value that its leaf already has.
pub open spec fn writes_same_value(
    log: TreeLogEntryWithProof,
    instruction: TreeInstruction<StorageKey>,
) -> bool {
    log.base matches TreeLogEntry::Updated { previous_value, .. } && instruction matches
        TreeInstruction::Write(entry) && previous_value == entry.value
}

/// Whether witness information tells the prover what an answered instruction does: on which leaf, from
/// which value to which, and along which path to the root.
pub open spec fn tells_instruction(
    witness: StorageLogMetadataView,
    log: TreeLogEntryWithProof,
    instruction: TreeInstruction<StorageKey>,
    empty: Seq<ValueHash>,
) -> bool {
    &&& witness.root_hash == log.root_hash.0
    &&& witness.is_write <==> log.base is Inserted || log.base is Updated
    &&& witness.first_write <==> log.base is Inserted
    &&& match instruction {
        TreeInstruction::Write(entry) => {
            &&& witness.leaf_hashed_key == entry.key.hashed_key
            &&& witness.leaf_enumeration_index == entry.leaf_index
            &&& witness.value_written == entry.value.0
        },
        TreeInstruction::Read(slot) => {
            &&& witness.leaf_hashed_key == slot.hashed_key
            &&& log.base matches TreeLogEntry::Read { leaf_index, .. }
                ==> witness.leaf_enumeration_index == leaf_index
            &&& log.base is ReadMissingKey ==> witness.leaf_enumeration_index == 0
            &&& is_zero(witness.value_written)
        },
    }
    &&& match log.base {
        TreeLogEntry::Updated { previous_value, .. } => witness.value_read == previous_value.0,
        TreeLogEntry::Read { value, .. } => witness.value_read == value.0,
        TreeLogEntry::Inserted | TreeLogEntry::ReadMissingKey => is_zero(witness.value_read),
    }
    &&& witness.merkle_paths.len() == 256
    &&& forall|level: int|
        0 <= level < 256 ==> #[trigger] witness.merkle_paths[level] == if level + log.merkle_path@.len()
            < 256 {
            empty[level].0
        } else {
            log.merkle_path@[level + log.merkle_path@.len() - 256].0
        }
}

/// The view of witness information on a log shows it field by field.
pub proof fn law_witness_log_is_shown(log: StorageLogMetadata)
    ensures
        log@.root_hash == log.root_hash,
        log@.is_write == log.is_write,
        log@.first_write == log.first_write,
        log@.merkle_paths == log.merkle_paths@,
        log@.leaf_hashed_key == log.leaf_hashed_key,
        log@.leaf_enumeration_index == log.leaf_enumeration_index,
        log@.value_written == log.value_written,
        log@.value_read == log.value_read,
{
}

/// The view of a witness shows it field by field.
pub proof fn law_witness_is_shown(job: PrepareBasicCircuitsJob)
    ensures
        job@.next_enumeration_index == job.next_enumeration_index,
        job@.logs.len() == job.merkle_paths@.len(),
        forall|i: int|
            0 <= i < job.merkle_paths@.len() ==> #[trigger] job@.logs[i] == job.merkle_paths@[i]@,
{
}

/// An answered instruction leaves witness information that tells the prover what it does, unless it
/// writes the value that its leaf already has.
pub proof fn law_witness_log_tells_instruction(
    log: &TreeLogEntryWithProof,
    instruction: &TreeInstruction<StorageKey>,
    empty: &EmptySubtreeHashes,
    res: Option<StorageLogMetadata>,
)
    requires
        call_ensures(compose_witness_log, (log, instruction, empty), res),
        empty@.len() == 257,
        log.merkle_path@.len() <= 256,
        *instruction is Read ==> log.base is Read || log.base is ReadMissingKey,
    ensures
        res is None <==> writes_same_value(*log, *instruction),
        res matches Some(witness) ==> tells_instruction(witness@, *log, *instruction, empty@),
{
    lemma_witness_log_tells_instruction(*log, *instruction, empty@);
}

/// What the witness information on an answered instruction tells.
proof fn lemma_witness_log_tells_instruction(
    log: TreeLogEntryWithProof,
    instruction: TreeInstruction<StorageKey>,
    empty: Seq<ValueHash>,
)
    requires
        empty.len() == 257,
        log.merkle_path@.len() <= 256,
        instruction is Read ==> log.base is Read || log.base is ReadMissingKey,
    ensures
        witness_log((log, instruction), empty) is None <==> writes_same_value(log, instruction),
        witness_log((log, instruction), empty) matches Some(witness) ==> tells_instruction(
            witness,
            log,
            instruction,
            empty,
        ),
{
    if let TreeInstruction::Write(entry) = instruction {
        if let TreeLogEntry::Updated { previous_value, .. } = log.base {
            assert(H256(previous_value.0) == previous_value);
            assert(H256(entry.value.0) == entry.value);
        }
    }
}

/// The key in the witness information on an instruction is the full hashed key of the slot that the
/// instruction reads or writes. In particular, it does not depend on the values and indexes that are
/// written, and different slots have different keys.
pub proof fn law_witness_key_is_of_slot(
    log: &TreeLogEntryWithProof,
    instruction: &TreeInstruction<StorageKey>,
    empty: &EmptySubtreeHashes,
    witness: StorageLogMetadata,
    slot: StorageKey,
)
    requires
        call_ensures(compose_witness_log, (log, instruction, empty), Some(witness)),
        call_ensures(TreeInstruction::<StorageKey>::key, (instruction,), slot),
    ensures
        forall|i: int|
            0 <= i < 4 ==> #[trigger] witness.leaf_hashed_key.0[i] == slot.hashed_key.0[i],
        *instruction matches TreeInstruction::Write(entry) ==> witness.leaf_hashed_key
            == entry.key.hashed_key,
        *instruction matches TreeInstruction::Read(key) ==> witness.leaf_hashed_key
            == key.hashed_key,
{
}

/// Logs can answer instructions if and only if their paths have at most 256 hashes, and no read changes
/// the tree. Logs without instructions, and instructions without logs, do not matter.
pub proof fn law_answers_are_recognized(
    logs: &[TreeLogEntryWithProof],
    instructions: &[TreeInstruction<StorageKey>],
    answered: bool,
)
    requires
        call_ensures(are_answered, (logs, instructions), answered),
    ensures
        answered <==> forall|i: int|
            0 <= i < logs@.len() && i < instructions@.len() ==> {
                &&& (#[trigger] logs@[i]).merkle_path@.len() <= 256
                &&& instructions@[i] is Read ==> logs@[i].base is Read
                    || logs@[i].base is ReadMissingKey
            },
{
    let pairs = paired(logs@, instructions@);
    if answered {
        assert forall|i: int| 0 <= i < logs@.len() && i < instructions@.len() implies {
            &&& (#[trigger] logs@[i]).merkle_path@.len() <= 256
            &&& instructions@[i] is Read ==> logs@[i].base is Read
                || logs@[i].base is ReadMissingKey
        } by {
            assert(is_answered(pairs[i]));
        }
    }
    if forall|i: int|
        0 <= i < logs@.len() && i < instructions@.len() ==> {
            &&& (#[trigger] logs@[i]).merkle_path@.len() <= 256
            &&& instructions@[i] is Read ==> logs@[i].base is Read
                || logs@[i].base is ReadMissingKey
        } {
        assert forall|i: int| 0 <= i < pairs.len() implies is_answered(#[trigger] pairs[i]) by {
            assert(logs@[i].merkle_path@.len() <= 256);
        }
    }
}

/// A new witness has no logs. Logs are added one by one, in order.
pub proof fn law_witness_grows_by_logs(
    job: &mut PrepareBasicCircuitsJob,
    log: StorageLogMetadata,
    next_enumeration_index: u64,
    new_job: PrepareBasicCircuitsJob,
)
    requires
        call_ensures(PrepareBasicCircuitsJob::push_merkle_path, (job, log), ()),
        call_ensures(PrepareBasicCircuitsJob::new, (next_enumeration_index,), new_job),
    ensures
        new_job.next_enumeration_index == next_enumeration_index,
        new_job.merkle_paths@.len() == 0,
        final(job).next_enumeration_index == old(job).next_enumeration_index,
        final(job).merkle_paths@.len() == old(job).merkle_paths@.len() + 1,
        final(job)@.logs.last() == log@,
        final(job)@.logs.drop_last() == old(job)@.logs,
{
    assert(new_job@.logs.len() == new_job.merkle_paths@.len());
    assert(final(job)@.logs.len() == final(job).merkle_paths@.len());
    assert(old(job)@.logs.len() == old(job).merkle_paths@.len());
    assert(final(job)@.logs.drop_last() =~= old(job)@.logs);
}

/// The witness of no instructions has no logs. Each answered instruction after them adds a log that
/// tells what the instruction does, unless it writes the value that its leaf already has.
pub proof fn law_witness_grows_by_instructions(
    logs: &[TreeLogEntryWithProof],
    instructions: &[TreeInstruction<StorageKey>],
    empty: &EmptySubtreeHashes,
    next_enumeration_index: u64,
    witness: PrepareBasicCircuitsJob,
    more_logs: &[TreeLogEntryWithProof],
    more_instructions: &[TreeInstruction<StorageKey>],
    more_witness: PrepareBasicCircuitsJob,
    log: TreeLogEntryWithProof,
    instruction: TreeInstruction<StorageKey>,
)
    requires
        call_ensures(
            compose_witness,
            (logs, instructions, empty, next_enumeration_index),
            witness,
        ),
        call_ensures(
            compose_witness,
            (more_logs, more_instructions, empty, next_enumeration_index),
            more_witness,
        ),
        logs@.len() == instructions@.len(),
        more_logs@ == logs@.push(log),
        more_instructions@ == instructions@.push(instruction),
        empty@.len() == 257,
        log.merkle_path@.len() <= 256,
        instruction is Read ==> log.base is Read || log.base is ReadMissingKey,
    ensures
        witness.next_enumeration_index == next_enumeration_index,
        logs@.len() == 0 ==> witness.merkle_paths@.len() == 0,
        writes_same_value(log, instruction) ==> more_witness@.logs == witness@.logs,
        !writes_same_value(log, instruction) ==> {
            &&& more_witness@.logs.len() == witness@.logs.len() + 1
            &&& more_witness@.logs.drop_last() == witness@.logs
            &&& tells_instruction(more_witness@.logs.last(), log, instruction, empty@)
        },
{
    let f = |pair: AnsweredInstruction| witness_log(pair, empty@);
    let pairs = paired(logs@, instructions@);
    law_witness_is_shown(witness);
    lemma_witness_log_tells_instruction(log, instruction, empty@);
    assert(paired(more_logs@, more_instructions@) =~= pairs.push((log, instruction)));
    lemma_filter_map_push(pairs, f, (log, instruction));
    if logs@.len() == 0 {
        assert(pairs =~= Seq::empty());
        assert(pairs.filter_map(f) =~= Seq::empty());
    }
    if !writes_same_value(log, instruction) {
        assert(more_witness@.logs.drop_last() =~= witness@.logs);
    }
}

/// Logs without instructions, and instructions without logs, add nothing to the witness.
pub proof fn law_excess_is_not_in_witness(
    logs: &[TreeLogEntryWithProof],
    instructions: &[TreeInstruction<StorageKey>],
    empty: &EmptySubtreeHashes,
    next_enumeration_index: u64,
    witness: PrepareBasicCircuitsJob,
    more_logs: &[TreeLogEntryWithProof],
    more_instructions: &[TreeInstruction<StorageKey>],
    more_witness: PrepareBasicCircuitsJob,
)
    requires
        call_ensures(
            compose_witness,
            (logs, instructions, empty, next_enumeration_index),
            witness,
        ),
        call_ensures(
            compose_witness,
            (more_logs, more_instructions, empty, next_enumeration_index),
            more_witness,
        ),
        logs@.len() == instructions@.len(),
        more_logs@.len() >= logs@.len(),
        more_instructions@.len() >= instructions@.len(),
        more_logs@.len() == logs@.len() || more_instructions@.len() == instructions@.len(),
        more_logs@.take(logs@.len() as int) == logs@,
        more_instructions@.take(instructions@.len() as int) == instructions@,
    ensures
        more_witness@ == witness@,
{
    assert forall|i: int| 0 <= i < logs@.len() implies #[trigger] more_logs@[i] == logs@[i] by {
        assert(more_logs@.take(logs@.len() as int)[i] == more_logs@[i]);
    }
    assert forall|i: int| 0 <= i < instructions@.len() implies #[trigger] more_instructions@[i]
        == instructions@[i] by {
        assert(more_instructions@.take(instructions@.len() as int)[i] == more_instructions@[i]);
    }
    assert(paired(more_logs@, more_instructions@) =~= paired(logs@, instructions@));
}

/// Hashed keys of the slots that answered instructions read or write, without those that write the
/// value that their leaf already has.
pub open spec fn effective_keys(
    logs: Seq<TreeLogEntryWithProof>,
    instructions: Seq<TreeInstruction<StorageKey>>,
) -> Seq<Key>
    decreases logs.len(),
{
    if logs.len() == 0 || logs.len() != instructions.len() {
        Seq::empty()
    } else {
        let rest = effective_keys(logs.drop_last(), instructions.drop_last());
        if writes_same_value(logs.last(), instructions.last()) {
            rest
        } else {
            rest.push(
                match instructions.last() {
                    TreeInstruction::Write(entry) => entry.key.hashed_key,
                    TreeInstruction::Read(slot) => slot.hashed_key,
                },
            )
        }
    }
}

/// The keys in the witness are those of the instructions in their order, without the instructions that
/// write the value that their leaf already has.
pub proof fn law_witness_keys_follow_instructions(
    logs: &[TreeLogEntryWithProof],
    instructions: &[TreeInstruction<StorageKey>],
    empty: &EmptySubtreeHashes,
    next_enumeration_index: u64,
    witness: PrepareBasicCircuitsJob,
)
    requires
        call_ensures(
            compose_witness,
            (logs, instructions, empty, next_enumeration_index),
            witness,
        ),
        logs@.len() == instructions@.len(),
        empty@.len() == 257,
        forall|i: int|
            0 <= i < logs@.len() ==> {
                &&& (#[trigger] logs@[i]).merkle_path@.len() <= 256
                &&& instructions@[i] is Read ==> logs@[i].base is Read
                    || logs@[i].base is ReadMissingKey
            },
    ensures
        witness.merkle_paths@.len() == effective_keys(logs@, instructions@).len(),
        forall|i: int|
            0 <= i < witness.merkle_paths@.len() ==> (
            #[trigger] witness.merkle_paths@[i]).leaf_hashed_key == effective_keys(
                logs@,
                instructions@,
            )[i],
{
    law_witness_is_shown(witness);
    lemma_witness_keys(logs@, instructions@, empty@);
    assert forall|i: int| 0 <= i < witness.merkle_paths@.len() implies (
    #[trigger] witness.merkle_paths@[i]).leaf_hashed_key == effective_keys(
        logs@,
        instructions@,
    )[i] by {
        assert(witness@.logs[i] == witness.merkle_paths@[i]@);
    }
}

/// The keys in the witness of answered instructions.
proof fn lemma_witness_keys(
    logs: Seq<TreeLogEntryWithProof>,
    instructions: Seq<TreeInstruction<StorageKey>>,
    empty: Seq<ValueHash>,
)
    requires
        logs.len() == instructions.len(),
        empty.len() == 257,
        forall|i: int|
            0 <= i < logs.len() ==> {
                &&& (#[trigger] logs[i]).merkle_path@.len() <= 256
                &&& instructions[i] is Read ==> logs[i].base is Read
                    || logs[i].base is ReadMissingKey
            },
    ensures
        ({
            let witness = witness_logs(logs, instructions, empty);
            let keys = effective_keys(logs, instructions);
            &&& witness.len() == keys.len()
            &&& forall|i: int|
                0 <= i < witness.len() ==> (#[trigger] witness[i]).leaf_hashed_key == keys[i]
        }),
    decreases logs.len(),
{
    let f = |pair: AnsweredInstruction| witness_log(pair, empty);
    let pairs = paired(logs, instructions);
    if logs.len() == 0 {
        assert(pairs =~= Seq::empty());
        assert(pairs.filter_map(f) =~= Seq::empty());
    } else {
        let rest_logs = logs.drop_last();
        let rest_instructions = instructions.drop_last();
        let log = logs.last();
        let instruction = instructions.last();
        assert(logs[logs.len() - 1] == log);
        assert forall|i: int| 0 <= i < rest_logs.len() implies {
            &&& (#[trigger] rest_logs[i]).merkle_path@.len() <= 256
            &&& rest_instructions[i] is Read ==> rest_logs[i].base is Read
                || rest_logs[i].base is ReadMissingKey
        } by {
            assert(logs[i] == rest_logs[i]);
        }
        lemma_witness_keys(rest_logs, rest_instructions, empty);
        lemma_witness_log_tells_instruction(log, instruction, empty);
        assert(pairs =~= paired(rest_logs, rest_instructions).push((log, instruction)));
        lemma_filter_map_push(paired(rest_logs, rest_instructions), f, (log, instruction));
    }
}

/// As long as the Merkle tree answers faithfully, the witness information on an instruction agrees with
/// the contents of the tree around it. The value read is that of the leaf before the instruction, or 0
/// without a leaf. A write leaves the leaf under the key in the witness, with the value written and the
/// index in the witness; a read has the index of the leaf, or 0 without a leaf.
pub proof fn law_witness_log_agrees_with_contents(
    contents: Contents,
    root_of: RootHashing,
    instructions: Seq<TreeInstruction<StorageKey>>,
    logs: Seq<TreeLogEntryWithProof>,
    i: int,
    log: &TreeLogEntryWithProof,
    instruction: &TreeInstruction<StorageKey>,
    empty: &EmptySubtreeHashes,
    res: Option<StorageLogMetadata>,
)
    requires
        are_faithful_logs(contents, root_of, instructions, logs),
        0 <= i < logs.len(),
        *log == logs[i],
        *instruction == instructions[i],
        log.merkle_path@.len() <= 256,
        empty@.len() == 257,
        call_ensures(compose_witness_log, (log, instruction, empty), res),
    ensures
        ({
            let before = after_instructions(contents, instructions.take(i));
            let after = after_instructions(contents, instructions.take(i + 1));
            &&& res matches Some(witness) ==> {
                let key = witness.leaf_hashed_key;
                &&& witness.root_hash == root_of(after).0
                &&& witness.is_write <==> *instruction is Write
                &&& witness.first_write <==> witness.is_write && !before.contains_key(key)
                &&& before.contains_key(key) ==> witness.value_read == before[key].value.0
                &&& !before.contains_key(key) ==> is_zero(witness.value_read)
                &&& witness.is_write ==> {
                    &&& after.contains_key(key)
                    &&& after[key].value.0 == witness.value_written
                    &&& after[key].leaf_index == witness.leaf_enumeration_index
                }
                &&& !witness.is_write ==> {
                    &&& before.contains_key(key) ==> witness.leaf_enumeration_index
                        == before[key].leaf_index
                    &&& !before.contains_key(key) ==> witness.leaf_enumeration_index == 0
                    &&& is_zero(witness.value_written)
                }
            }
            &&& res is None ==> (*instruction matches TreeInstruction::Write(entry)
                && before.contains_key(entry.key.hashed_key)
                && before[entry.key.hashed_key].value == entry.value)
        }),
{
    let before = after_instructions(contents, instructions.take(i));
    assert(logs[i].base == answer(before, instructions[i]));
    assert(instructions.take(i + 1).drop_last() =~= instructions.take(i));
    lemma_after_last_instruction(contents, instructions.take(i + 1));
    law_witness_log_tells_instruction(log, instruction, empty, res);
}

} // verus!
