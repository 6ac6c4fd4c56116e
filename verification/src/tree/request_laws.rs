//! What a batch asks of the Merkle tree, and what it makes of the answer.

use vstd::prelude::*;

use crate::tree::contents::{after_instructions, after_writes, Contents, Leaf};
use crate::tree::domain::{TreeRequest, ZkSyncTree};
use crate::tree::entries::{
    filter_write_instructions, hash_entry_keys, hash_instruction_keys, hashed_entry, writes_of,
    written_entry, BlockOutputWithProofs, StorageKey, TreeEntry, TreeInstruction, TreeLogEntry,
};
use crate::tree::laws::lemma_filter_map_push;
use crate::tree::writes::{
    extract_writes, initial_write, paired, repeated_write, InitialStorageWrite,
    RepeatedStorageWrite,
};
use crate::types::{Key, ValueHash, H256};

verus! {

/// Hashes are equal if and only if all their bytes are.
pub proof fn law_hashes_are_compared_bytewise(left: &H256, right: &H256, are_equal: bool)
    requires
        call_ensures(H256::equals, (left, right), are_equal),
    ensures
        are_equal <==> forall|i: int| 0 <= i < 32 ==> #[trigger] left.0[i] == right.0[i],
{
    if forall|i: int| 0 <= i < 32 ==> #[trigger] left.0[i] == right.0[i] {
        assert(left.0 =~= right.0);
    }
}

/// A slot is found in the tree under all 256 bits of its hashed key. Slots with different hashed keys
/// are found under different keys.
pub proof fn law_slot_is_found_under_its_key(slot: &StorageKey, key: Key)
    requires
        call_ensures(StorageKey::hashed_key_u256, (slot,), key),
    ensures
        forall|i: int| 0 <= i < 4 ==> #[trigger] key.0[i] == slot.hashed_key.0[i],
{
}

/// Whether an entry for the tree is the one for a storage slot: it has all 256 bits of the hashed key
/// of the slot, and the value and the enumeration index that are written.
pub open spec fn is_entry_for_slot(
    requested: TreeEntry<Key>,
    entry: TreeEntry<StorageKey>,
) -> bool {
    &&& forall|i: int| 0 <= i < 4 ==> #[trigger] requested.key.0[i] == entry.key.hashed_key.0[i]
    &&& requested.value == entry.value
    &&& requested.leaf_index == entry.leaf_index
}

/// Whether an instruction for the tree does what a storage log asks, on the leaf of the same slot: a
/// read is requested under the key that a write of the same slot is.
pub open spec fn is_instruction_for_slot(
    requested: TreeInstruction<Key>,
    instruction: TreeInstruction<StorageKey>,
) -> bool {
    match (requested, instruction) {
        (TreeInstruction::Write(requested), TreeInstruction::Write(entry)) => is_entry_for_slot(
            requested,
            entry,
        ),
        (TreeInstruction::Read(key), TreeInstruction::Read(slot)) => forall|i: int|
            0 <= i < 4 ==> #[trigger] key.0[i] == slot.hashed_key.0[i],
        _ => false,
    }
}

/// An entry is handed to the tree under the full hashed key of its slot, with its value and index.
pub proof fn law_entry_keeps_its_slot(entry: &TreeEntry<StorageKey>, requested: TreeEntry<Key>)
    requires
        call_ensures(TreeEntry::<StorageKey>::with_hashed_key, (entry,), requested),
    ensures
        is_entry_for_slot(requested, *entry),
{
}

/// An instruction is handed to the tree under the full hashed key of its slot.
pub proof fn law_instruction_keeps_its_slot(
    instruction: &TreeInstruction<StorageKey>,
    requested: TreeInstruction<Key>,
    slot: StorageKey,
)
    requires
        call_ensures(TreeInstruction::<StorageKey>::with_hashed_key, (instruction,), requested),
        call_ensures(TreeInstruction::<StorageKey>::key, (instruction,), slot),
    ensures
        is_instruction_for_slot(requested, *instruction),
        *instruction matches TreeInstruction::Write(entry) ==> slot == entry.key,
        *instruction matches TreeInstruction::Read(key) ==> slot == key,
        requested matches TreeInstruction::Write(entry) ==> entry.key == slot.hashed_key,
        requested matches TreeInstruction::Read(key) ==> key == slot.hashed_key,
{
}

/// Entries are handed to the tree one by one.
pub proof fn law_entries_keep_their_slots(
    entries: &[TreeEntry<StorageKey>],
    requested: Vec<TreeEntry<Key>>,
)
    requires
        call_ensures(hash_entry_keys, (entries,), requested),
    ensures
        requested@.len() == entries@.len(),
        forall|i: int|
            0 <= i < entries@.len() ==> is_entry_for_slot(#[trigger] requested@[i], entries@[i]),
{
}

/// Instructions are handed to the tree one by one.
pub proof fn law_instructions_keep_their_slots(
    instructions: &[TreeInstruction<StorageKey>],
    requested: Vec<TreeInstruction<Key>>,
)
    requires
        call_ensures(hash_instruction_keys, (instructions,), requested),
    ensures
        requested@.len() == instructions@.len(),
        forall|i: int|
            0 <= i < instructions@.len() ==> is_instruction_for_slot(
                #[trigger] requested@[i],
                instructions@[i],
            ),
{
}

/// The writes among no instructions are none. Each instruction after them adds its entry to the writes
/// if it is a write, and nothing if it is a read.
pub proof fn law_writes_are_selected_in_order(
    instructions: &[TreeInstruction<StorageKey>],
    writes: Vec<TreeEntry<StorageKey>>,
    more_instructions: &[TreeInstruction<StorageKey>],
    more_writes: Vec<TreeEntry<StorageKey>>,
    instruction: TreeInstruction<StorageKey>,
)
    requires
        call_ensures(filter_write_instructions, (instructions,), writes),
        call_ensures(filter_write_instructions, (more_instructions,), more_writes),
        more_instructions@ == instructions@.push(instruction),
    ensures
        instructions@.len() == 0 ==> writes@.len() == 0,
        instruction matches TreeInstruction::Write(entry) ==> more_writes@ == writes@.push(entry),
        instruction is Read ==> more_writes@ == writes@,
{
    lemma_writes_of_push(instructions@, instruction);
}

/// The writes among instructions, after one more instruction.
proof fn lemma_writes_of_push(
    instructions: Seq<TreeInstruction<StorageKey>>,
    instruction: TreeInstruction<StorageKey>,
)
    ensures
        instructions.len() == 0 ==> writes_of(instructions).len() == 0,
        writes_of(instructions.push(instruction)) == match instruction {
            TreeInstruction::Write(entry) => writes_of(instructions).push(entry),
            TreeInstruction::Read(_) => writes_of(instructions),
        },
{
    lemma_filter_map_push(
        instructions,
        |instruction: TreeInstruction<StorageKey>| written_entry(instruction),
        instruction,
    );
}

/// Whether entries for the tree are those for the writes among storage logs, in their order.
pub open spec fn are_entries_for_writes(
    requested: Seq<TreeEntry<Key>>,
    writes: Seq<TreeEntry<StorageKey>>,
) -> bool {
    &&& requested.len() == writes.len()
    &&& forall|i: int|
        0 <= i < writes.len() ==> is_entry_for_slot(#[trigger] requested[i], writes[i])
}

/// The genesis batch hands the writes of its storage logs to the tree, each under the full hashed key of
/// its slot.
pub proof fn law_genesis_requests_all_writes(
    storage_logs: &[TreeInstruction<StorageKey>],
    requested: Vec<TreeEntry<Key>>,
    writes: Vec<TreeEntry<StorageKey>>,
)
    requires
        call_ensures(ZkSyncTree::process_genesis_batch, (storage_logs,), requested),
        call_ensures(filter_write_instructions, (storage_logs,), writes),
    ensures
        are_entries_for_writes(requested@, writes@),
{
}

/// In the full mode, a batch hands all its storage logs to the tree, each under the full hashed key of
/// its slot. In the lightweight mode, it hands over the writes alone, as the genesis batch does.
pub proof fn law_batch_requests_its_logs(
    tree: &ZkSyncTree,
    storage_logs: &[TreeInstruction<StorageKey>],
    request: TreeRequest,
    writes: Vec<TreeEntry<StorageKey>>,
)
    requires
        call_ensures(ZkSyncTree::prepare_l1_batch, (tree, storage_logs), request),
        call_ensures(filter_write_instructions, (storage_logs,), writes),
    ensures
        tree@.mode is Full ==> {
            &&& request matches TreeRequest::ExtendWithProofs(requested)
            &&& requested@.len() == storage_logs@.len()
            &&& forall|i: int|
                0 <= i < storage_logs@.len() ==> is_instruction_for_slot(
                    #[trigger] requested@[i],
                    storage_logs@[i],
                )
        },
        tree@.mode is Lightweight ==> {
            &&& request matches TreeRequest::Extend(requested)
            &&& are_entries_for_writes(requested@, writes@)
        },
{
}

/// The contents of the tree after the entries that it has been handed.
pub open spec fn after_requested_entries(
    contents: Contents,
    requested: Seq<TreeEntry<Key>>,
) -> Contents
    decreases requested.len(),
{
    if requested.len() == 0 {
        contents
    } else {
        let entry = requested.last();
        after_requested_entries(contents, requested.drop_last()).insert(
            entry.key,
            Leaf { value: entry.value, leaf_index: entry.leaf_index },
        )
    }
}

/// The entries that the genesis batch hands to the tree leave in it what the storage logs say, whatever
/// the tree has held before.
pub proof fn law_requested_entries_apply_storage_logs(
    storage_logs: &[TreeInstruction<StorageKey>],
    requested: Vec<TreeEntry<Key>>,
    contents: Contents,
)
    requires
        call_ensures(ZkSyncTree::process_genesis_batch, (storage_logs,), requested),
    ensures
        after_requested_entries(contents, requested@) == after_instructions(
            contents,
            storage_logs@,
        ),
{
    lemma_requested_entries(contents, writes_of(storage_logs@));
    assert(requested@ =~= writes_of(storage_logs@).map_values(
        |entry: TreeEntry<StorageKey>| hashed_entry(entry),
    ));
}

/// Entries under hashed keys leave the same contents.
proof fn lemma_requested_entries(contents: Contents, entries: Seq<TreeEntry<StorageKey>>)
    ensures
        after_requested_entries(
            contents,
            entries.map_values(|entry: TreeEntry<StorageKey>| hashed_entry(entry)),
        ) == after_writes(contents, entries),
    decreases entries.len(),
{
    let hashed = |entry: TreeEntry<StorageKey>| hashed_entry(entry);
    if entries.len() > 0 {
        lemma_requested_entries(contents, entries.drop_last());
        assert(entries.map_values(hashed).drop_last() =~= entries.drop_last().map_values(hashed));
    }
}

/// A read answers without changing the tree: no insertion or update is one.
pub proof fn law_reads_do_not_change_tree(log: &TreeLogEntry, is_read: bool)
    requires
        call_ensures(TreeLogEntry::is_read, (log,), is_read),
    ensures
        is_read <==> *log is Read || *log is ReadMissingKey,
        !is_read <==> *log is Inserted || *log is Updated,
{
}

/// The root hash of an output is the one after its last log.
pub proof fn law_output_ends_with_root_hash(
    output: &BlockOutputWithProofs,
    root_hash: Option<ValueHash>,
)
    requires
        call_ensures(BlockOutputWithProofs::root_hash, (output,), root_hash),
    ensures
        root_hash is None <==> output.logs@.len() == 0,
        root_hash matches Some(hash) ==> hash == output.logs@[output.logs@.len() - 1].root_hash,
{
}

/// A write that inserts a leaf is an initial write of the index, the full key and the value of the
/// entry. A write that updates a leaf is a repeated write of the index and the value if the value is
/// new. Each log and entry adds to the writes in order.
pub proof fn law_writes_are_extracted_in_order(
    logs: &[TreeLogEntry],
    entries: &[TreeEntry<StorageKey>],
    res: (Vec<InitialStorageWrite>, Vec<RepeatedStorageWrite>),
    more_logs: &[TreeLogEntry],
    more_entries: &[TreeEntry<StorageKey>],
    more_res: (Vec<InitialStorageWrite>, Vec<RepeatedStorageWrite>),
    log: TreeLogEntry,
    entry: TreeEntry<StorageKey>,
)
    requires
        call_ensures(extract_writes, (logs, entries), res),
        call_ensures(extract_writes, (more_logs, more_entries), more_res),
        logs@.len() == entries@.len(),
        more_logs@ == logs@.push(log),
        more_entries@ == entries@.push(entry),
    ensures
        logs@.len() == 0 ==> res.0@.len() == 0 && res.1@.len() == 0,
        log is Inserted ==> {
            &&& more_res.0@.len() == res.0@.len() + 1
            &&& more_res.0@.drop_last() == res.0@
            &&& more_res.0@.last().index == entry.leaf_index
            &&& more_res.0@.last().key == entry.key.hashed_key
            &&& more_res.0@.last().value == entry.value
            &&& more_res.1@ == res.1@
        },
        log matches TreeLogEntry::Updated { previous_value, .. } ==> {
            &&& more_res.0@ == res.0@
            &&& previous_value == entry.value ==> more_res.1@ == res.1@
            &&& previous_value != entry.value ==> {
                &&& more_res.1@.len() == res.1@.len() + 1
                &&& more_res.1@.drop_last() == res.1@
                &&& more_res.1@.last().index == entry.leaf_index
                &&& more_res.1@.last().value == entry.value
            }
        },
        log is Read || log is ReadMissingKey ==> more_res.0@ == res.0@ && more_res.1@ == res.1@,
{
    let initial = |pair: (TreeLogEntry, TreeEntry<StorageKey>)| initial_write(pair);
    let repeated = |pair: (TreeLogEntry, TreeEntry<StorageKey>)| repeated_write(pair);
    let pairs = paired(logs@, entries@);
    assert(paired(more_logs@, more_entries@) =~= pairs.push((log, entry)));
    lemma_filter_map_push(pairs, initial, (log, entry));
    lemma_filter_map_push(pairs, repeated, (log, entry));
    if logs@.len() == 0 {
        assert(pairs =~= Seq::empty());
        assert(pairs.filter_map(initial) =~= Seq::empty());
        assert(pairs.filter_map(repeated) =~= Seq::empty());
    }
    if log is Inserted {
        assert(more_res.0@.drop_last() =~= res.0@);
    }
    if more_res.1@.len() > res.1@.len() {
        assert(more_res.1@.drop_last() =~= res.1@);
    }
}

/// Logs without entries, and entries without logs, add nothing to the writes.
pub proof fn law_excess_is_not_extracted(
    logs: &[TreeLogEntry],
    entries: &[TreeEntry<StorageKey>],
    res: (Vec<InitialStorageWrite>, Vec<RepeatedStorageWrite>),
    more_logs: &[TreeLogEntry],
    more_entries: &[TreeEntry<StorageKey>],
    more_res: (Vec<InitialStorageWrite>, Vec<RepeatedStorageWrite>),
)
    requires
        call_ensures(extract_writes, (logs, entries), res),
        call_ensures(extract_writes, (more_logs, more_entries), more_res),
        logs@.len() == entries@.len(),
        more_logs@.len() >= logs@.len(),
        more_entries@.len() >= entries@.len(),
        more_logs@.len() == logs@.len() || more_entries@.len() == entries@.len(),
        more_logs@.take(logs@.len() as int) == logs@,
        more_entries@.take(entries@.len() as int) == entries@,
    ensures
        more_res.0@ == res.0@,
        more_res.1@ == res.1@,
{
    assert forall|i: int| 0 <= i < logs@.len() implies #[trigger] more_logs@[i] == logs@[i] by {
        assert(more_logs@.take(logs@.len() as int)[i] == more_logs@[i]);
    }
    assert forall|i: int| 0 <= i < entries@.len() implies #[trigger] more_entries@[i]
        == entries@[i] by {
        assert(more_entries@.take(entries@.len() as int)[i] == more_entries@[i]);
    }
    assert(paired(more_logs@, more_entries@) =~= paired(logs@, entries@));
}

} // verus!
