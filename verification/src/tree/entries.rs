//! Storage logs as instructions for the tree, and the answers of the tree to them.

use vstd::prelude::*;

use crate::types::{Key, ValueHash};

verus! {

/// Depth of the tree: every leaf is separated from the root by this many levels.
pub const TREE_DEPTH: usize = 256;

/// A slot of the contract storage, represented by the key of its leaf in the tree.
#[derive(Debug, Clone, Copy, PartialEq, Eq, Hash)]
pub struct StorageKey {
    /// Hash of the account address and of the slot index, read as an integer.
    pub hashed_key: Key,
}

impl StorageKey {
    /// Returns the key of the leaf that the slot occupies in the tree.
    pub fn hashed_key_u256(&self) -> (res: Key)
        ensures
            res == self.hashed_key,
    {
        self.hashed_key
    }
}

/// A value assigned to a leaf of the tree.
#[derive(Debug, Clone, Copy, PartialEq, Eq, Hash)]
pub struct TreeEntry<K> {
    /// Key of the leaf.
    pub key: K,
    /// Value that the leaf gets.
    pub value: ValueHash,
    /// Enumeration index of the leaf.
    pub leaf_index: u64,
}

/// What a single storage log asks of the tree.
#[derive(Debug, Clone, Copy, PartialEq, Eq, Hash)]
pub enum TreeInstruction<K> {
    /// Read the leaf with the specified key.
    Read(K),
    /// Insert or update a leaf.
    Write(TreeEntry<K>),
}

/// The entry with its storage slot replaced by the key of the leaf.
pub open spec fn hashed_entry(entry: TreeEntry<StorageKey>) -> TreeEntry<Key> {
    TreeEntry { key: entry.key.hashed_key, value: entry.value, leaf_index: entry.leaf_index }
}

/// The instruction with its storage slot replaced by the key of the leaf.
pub open spec fn hashed_instruction(instruction: TreeInstruction<StorageKey>) -> TreeInstruction<
    Key,
> {
    match instruction {
        TreeInstruction::Read(key) => TreeInstruction::Read(key.hashed_key),
        TreeInstruction::Write(entry) => TreeInstruction::Write(hashed_entry(entry)),
    }
}

impl TreeEntry<StorageKey> {
    /// Replaces the storage slot by the key of its leaf.
    pub fn with_hashed_key(&self) -> (res: TreeEntry<Key>)
        ensures
            res == hashed_entry(*self),
    {
        TreeEntry {
            key: self.key.hashed_key_u256(),
            value: self.value,
            leaf_index: self.leaf_index,
        }
    }
}

impl TreeInstruction<StorageKey> {
    /// The storage slot that the instruction reads or writes.
    pub open spec fn spec_key(&self) -> StorageKey {
        match *self {
            TreeInstruction::Read(key) => key,
            TreeInstruction::Write(entry) => entry.key,
        }
    }

    /// Returns the storage slot that the instruction reads or writes.
    pub fn key(&self) -> (res: StorageKey)
        ensures
            res == self.spec_key(),
    {
        match self {
            TreeInstruction::Read(key) => *key,
            TreeInstruction::Write(entry) => entry.key,
        }
    }

    /// Replaces the storage slot by the key of its leaf.
    pub fn with_hashed_key(&self) -> (res: TreeInstruction<Key>)
        ensures
            res == hashed_instruction(*self),
    {
        match self {
            TreeInstruction::Read(key) => TreeInstruction::Read(key.hashed_key_u256()),
            TreeInstruction::Write(entry) => TreeInstruction::Write(entry.with_hashed_key()),
        }
    }
}

/// What the tree did on a single instruction.
#[derive(Debug, Clone, Copy, PartialEq, Eq, Hash)]
pub enum TreeLogEntry {
    /// A leaf was inserted.
    Inserted,
    /// An existing leaf was updated.
    Updated {
        /// Enumeration index of the leaf.
        leaf_index: u64,
        /// Value of the leaf before the update.
        previous_value: ValueHash,
    },
    /// An existing leaf was read.
    Read {
        /// Enumeration index of the leaf.
        leaf_index: u64,
        /// Value of the leaf.
        value: ValueHash,
    },
    /// A leaf that is not in the tree was read.
    ReadMissingKey,
}

impl TreeLogEntry {
    /// Whether the tree only read a leaf.
    pub open spec fn spec_is_read(&self) -> bool {
        *self is Read || *self is ReadMissingKey
    }

    /// Checks whether the tree only read a leaf.
    pub fn is_read(&self) -> (res: bool)
        ensures
            res == self.spec_is_read(),
    {
        match self {
            TreeLogEntry::Read { .. } | TreeLogEntry::ReadMissingKey => true,
            TreeLogEntry::Inserted | TreeLogEntry::Updated { .. } => false,
        }
    }
}

/// Answer of the tree to a block of writes.
#[derive(Debug, Clone, PartialEq, Eq)]
pub struct BlockOutput {
    /// Root hash of the tree after the block.
    pub root_hash: ValueHash,
    /// Number of leaves in the tree after the block.
    pub leaf_count: u64,
    /// What the tree did on each write, in the order of the writes.
    pub logs: Vec<TreeLogEntry>,
}

/// What the tree did on a single instruction, with a proof.
#[derive(Debug, Clone, PartialEq, Eq)]
pub struct TreeLogEntryWithProof {
    /// What the tree did.
    pub base: TreeLogEntry,
    /// Hashes of the siblings on the way from the leaf to the root, without the longest run of
    /// empty subtrees next to the leaf.
    pub merkle_path: Vec<ValueHash>,
    /// Root hash of the tree after the instruction.
    pub root_hash: ValueHash,
}

/// Answer of the tree to a block of instructions, with proofs.
#[derive(Debug, Clone, PartialEq, Eq)]
pub struct BlockOutputWithProofs {
    /// What the tree did on each instruction, in the order of the instructions.
    pub logs: Vec<TreeLogEntryWithProof>,
    /// Number of leaves in the tree after the block.
    pub leaf_count: u64,
}

/// Root hash after the last of the logged instructions.
pub open spec fn last_root_hash(logs: Seq<TreeLogEntryWithProof>) -> Option<ValueHash> {
    if logs.len() == 0 {
        None
    } else {
        Some(logs.last().root_hash)
    }
}

impl BlockOutputWithProofs {
    /// Returns the root hash after the last instruction of the block, if there is one.
    pub fn root_hash(&self) -> (res: Option<ValueHash>)
        ensures
            res == last_root_hash(self.logs@),
    {
        if self.logs.len() == 0 {
            None
        } else {
            Some(self.logs[self.logs.len() - 1].root_hash)
        }
    }
}

/// The writes among the instructions, in the order of the instructions.
pub open spec fn writes_of(instructions: Seq<TreeInstruction<StorageKey>>) -> Seq<
    TreeEntry<StorageKey>,
> {
    instructions.filter_map(|instruction| written_entry(instruction))
}

/// The entry that an instruction writes.
pub open spec fn written_entry(instruction: TreeInstruction<StorageKey>) -> Option<
    TreeEntry<StorageKey>,
> {
    match instruction {
        TreeInstruction::Write(entry) => Some(entry),
        TreeInstruction::Read(_) => None,
    }
}

/// Selects the writes among the instructions.
pub fn filter_write_instructions(instructions: &[TreeInstruction<StorageKey>]) -> (res: Vec<
    TreeEntry<StorageKey>,
>)
    ensures
        res@ == writes_of(instructions@),
{
    let ghost f = |instruction: TreeInstruction<StorageKey>| written_entry(instruction);
    let mut kvs: Vec<TreeEntry<StorageKey>> = Vec::new();
    let mut i: usize = 0;
    assert(instructions@.take(0).filter_map(f) =~= Seq::empty()) by {
        reveal(Seq::filter_map);
    }
    while i < instructions.len()
        invariant
            i <= instructions@.len(),
            f == (|instruction: TreeInstruction<StorageKey>| written_entry(instruction)),
            kvs@ == instructions@.take(i as int).filter_map(f),
        decreases instructions@.len() - i,
    {
        proof {
            instructions@.lemma_filter_map_take_succ(f, i as int);
        }
        match &instructions[i] {
            TreeInstruction::Write(entry) => kvs.push(*entry),
            TreeInstruction::Read(_) => {},
        }
        i += 1;
    }
    assert(instructions@.take(i as int) =~= instructions@);
    kvs
}

/// Replaces the storage slot of each entry by the key of its leaf.
pub fn hash_entry_keys(entries: &[TreeEntry<StorageKey>]) -> (res: Vec<TreeEntry<Key>>)
    ensures
        res@ == entries@.map_values(|entry| hashed_entry(entry)),
{
    let mut hashed: Vec<TreeEntry<Key>> = Vec::new();
    let mut i: usize = 0;
    while i < entries.len()
        invariant
            i <= entries@.len(),
            hashed@.len() == i,
            forall|j: int| 0 <= j < i ==> hashed@[j] == hashed_entry(entries@[j]),
        decreases entries@.len() - i,
    {
        hashed.push(entries[i].with_hashed_key());
        i += 1;
    }
    assert(hashed@ =~= entries@.map_values(|entry| hashed_entry(entry)));
    hashed
}

/// Replaces the storage slot of each instruction by the key of its leaf.
pub fn hash_instruction_keys(instructions: &[TreeInstruction<StorageKey>]) -> (res: Vec<
    TreeInstruction<Key>,
>)
    ensures
        res@ == instructions@.map_values(|instruction| hashed_instruction(instruction)),
{
    let mut hashed: Vec<TreeInstruction<Key>> = Vec::new();
    let mut i: usize = 0;
    while i < instructions.len()
        invariant
            i <= instructions@.len(),
            hashed@.len() == i,
            forall|j: int| 0 <= j < i ==> hashed@[j] == hashed_instruction(instructions@[j]),
        decreases instructions@.len() - i,
    {
        hashed.push(instructions[i].with_hashed_key());
        i += 1;
    }
    assert(hashed@ =~= instructions@.map_values(|instruction| hashed_instruction(instruction)));
    hashed
}

} // verus!
