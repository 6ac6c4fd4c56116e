//! Witness information that a batch leaves for the prover.

use vstd::prelude::*;

use crate::tree::entries::{
    StorageKey, TreeInstruction, TreeLogEntry, TreeLogEntryWithProof, TREE_DEPTH,
};
use crate::tree::writes::paired;
use crate::types::{ValueHash, H256, U256};

verus! {

/// Root hashes of the subtrees without leaves, by the height of the subtree.
#[derive(Debug, Clone, PartialEq, Eq)]
pub struct EmptySubtreeHashes {
    hashes: Vec<ValueHash>,
}

impl View for EmptySubtreeHashes {
    type V = Seq<ValueHash>;

    closed spec fn view(&self) -> Seq<ValueHash> {
        self.hashes@
    }
}

impl EmptySubtreeHashes {
    /// There is a hash for each height from a single leaf to the entire tree.
    pub open spec fn wf(&self) -> bool {
        self@.len() == TREE_DEPTH + 1
    }

    /// Creates a table from the hashes for the heights from 0 to [`TREE_DEPTH`]. Returns `None` if
    /// there are more or fewer hashes than that.
    pub fn new(hashes: Vec<ValueHash>) -> (res: Option<Self>)
        ensures
            res is Some <==> hashes@.len() == TREE_DEPTH + 1,
            res matches Some(table) ==> table.wf() && table@ == hashes@,
    {
        if hashes.len() == TREE_DEPTH + 1 {
            Some(EmptySubtreeHashes { hashes })
        } else {
            None
        }
    }

    /// Returns the root hash of a subtree without leaves of the specified height.
    pub fn empty_subtree_hash(&self, height: usize) -> (res: ValueHash)
        requires
            self.wf(),
            height <= TREE_DEPTH,
        ensures
            res == self@[height as int],
    {
        self.hashes[height]
    }

    /// Returns the root hash of a tree without leaves.
    pub fn empty_tree_hash(&self) -> (res: ValueHash)
        requires
            self.wf(),
        ensures
            res == self@[TREE_DEPTH as int],
    {
        self.hashes[TREE_DEPTH]
    }
}

/// Witness information on a single storage log.
#[derive(Debug, Clone, PartialEq, Eq)]
pub struct StorageLogMetadata {
    /// Root hash of the tree after the log.
    pub root_hash: [u8; 32],
    /// Whether the log is a write.
    pub is_write: bool,
    /// Whether the log is the first write to its slot.
    pub first_write: bool,
    /// Sibling hashes on the way from the leaf to the root, one for each level.
    pub merkle_paths: Vec<[u8; 32]>,
    /// Key of the leaf.
    pub leaf_hashed_key: U256,
    /// Enumeration index of the leaf; 0 if there is no leaf.
    pub leaf_enumeration_index: u64,
    /// Value that the log writes; 0 if it reads.
    pub value_written: [u8; 32],
    /// Value of the leaf before the log; 0 if there is no leaf.
    pub value_read: [u8; 32],
}

/// Abstract contents of a [`StorageLogMetadata`].
#[verifier::ext_equal]
pub struct StorageLogMetadataView {
    pub root_hash: [u8; 32],
    pub is_write: bool,
    pub first_write: bool,
    pub merkle_paths: Seq<[u8; 32]>,
    pub leaf_hashed_key: U256,
    pub leaf_enumeration_index: u64,
    pub value_written: [u8; 32],
    pub value_read: [u8; 32],
}

impl View for StorageLogMetadata {
    type V = StorageLogMetadataView;

    open spec fn view(&self) -> StorageLogMetadataView {
        StorageLogMetadataView {
            root_hash: self.root_hash,
            is_write: self.is_write,
            first_write: self.first_write,
            merkle_paths: self.merkle_paths@,
            leaf_hashed_key: self.leaf_hashed_key,
            leaf_enumeration_index: self.leaf_enumeration_index,
            value_written: self.value_written,
            value_read: self.value_read,
        }
    }
}

/// Witness information on a batch.
#[derive(Debug, Clone, PartialEq, Eq)]
pub struct PrepareBasicCircuitsJob {
    /// Enumeration index of the first leaf that the batch may insert.
    pub next_enumeration_index: u64,
    /// Information on the storage logs of the batch, in the order of the logs.
    pub merkle_paths: Vec<StorageLogMetadata>,
}

/// Abstract contents of a [`PrepareBasicCircuitsJob`].
#[verifier::ext_equal]
pub struct WitnessView {
    pub next_enumeration_index: u64,
    pub logs: Seq<StorageLogMetadataView>,
}

impl View for PrepareBasicCircuitsJob {
    type V = WitnessView;

    open spec fn view(&self) -> WitnessView {
        WitnessView {
            next_enumeration_index: self.next_enumeration_index,
            logs: self.merkle_paths@.map_values(|log: StorageLogMetadata| log@),
        }
    }
}

impl PrepareBasicCircuitsJob {
    /// Creates a job without storage logs.
    pub fn new(next_enumeration_index: u64) -> (res: Self)
        ensures
            res@ == (WitnessView { next_enumeration_index, logs: Seq::empty() }),
    {
        let job = PrepareBasicCircuitsJob { next_enumeration_index, merkle_paths: Vec::new() };
        assert(job@.logs =~= Seq::<StorageLogMetadataView>::empty());
        job
    }

    /// Adds information on the next storage log.
    pub fn push_merkle_path(&mut self, log: StorageLogMetadata)
        ensures
            final(self)@ == (WitnessView { logs: old(self)@.logs.push(log@), ..old(self)@ }),
    {
        self.merkle_paths.push(log);
        assert(self@.logs =~= old(self)@.logs.push(log@));
    }
}

/// A log of the tree and the instruction that it answers.
pub type AnsweredInstruction = (TreeLogEntryWithProof, TreeInstruction<StorageKey>);

/// Whether a log can answer an instruction: its proof is no longer than the tree is deep, and a
/// read does not change the tree.
pub open spec fn is_answered(pair: AnsweredInstruction) -> bool {
    &&& pair.0.merkle_path@.len() <= TREE_DEPTH
    &&& pair.1 is Read ==> pair.0.base.spec_is_read()
}

/// The 32-byte value with all bytes zero.
pub open spec fn zero_value() -> [u8; 32] {
    vstd::array::spec_array_fill_for_copy_type::<u8, 32>(0)
}

/// Value that an instruction writes; 0 if it reads.
pub open spec fn value_written(instruction: TreeInstruction<StorageKey>) -> [u8; 32] {
    match instruction {
        TreeInstruction::Write(entry) => entry.value.0,
        TreeInstruction::Read(_) => zero_value(),
    }
}

/// Value of the leaf before the logged operation; 0 if there was no leaf.
pub open spec fn value_read(base: TreeLogEntry) -> [u8; 32] {
    match base {
        TreeLogEntry::Updated { previous_value, .. } => previous_value.0,
        TreeLogEntry::Read { value, .. } => value.0,
        TreeLogEntry::Inserted | TreeLogEntry::ReadMissingKey => zero_value(),
    }
}

/// Whether the logged operation is an update to the value that the leaf already had.
pub open spec fn is_noop_update(base: TreeLogEntry, value_written: [u8; 32]) -> bool {
    base matches TreeLogEntry::Updated { previous_value, .. } && previous_value.0 == value_written
}

/// Enumeration index of the leaf that an instruction is about; 0 if there is no leaf.
pub open spec fn leaf_enumeration_index(pair: AnsweredInstruction) -> u64 {
    match pair.1 {
        TreeInstruction::Write(entry) => entry.leaf_index,
        TreeInstruction::Read(_) => match pair.0.base {
            TreeLogEntry::Read { leaf_index, .. } => leaf_index,
            _ => 0,
        },
    }
}

/// Sibling hashes for all levels of the tree: the hashes of empty subtrees for the levels next to
/// the leaf that `merkle_path` leaves out, followed by `merkle_path`.
pub open spec fn full_merkle_path(merkle_path: Seq<ValueHash>, empty: Seq<ValueHash>) -> Seq<
    [u8; 32],
> {
    (empty.take(TREE_DEPTH - merkle_path.len()) + merkle_path).map_values(|hash: ValueHash| hash.0)
}

/// Witness information on an answered instruction, or `None` if the tree made a no-op update.
pub open spec fn witness_log(pair: AnsweredInstruction, empty: Seq<ValueHash>) -> Option<
    StorageLogMetadataView,
> {
    if is_noop_update(pair.0.base, value_written(pair.1)) {
        None
    } else {
        Some(
            StorageLogMetadataView {
                root_hash: pair.0.root_hash.0,
                is_write: !pair.0.base.spec_is_read(),
                first_write: pair.0.base is Inserted,
                merkle_paths: full_merkle_path(pair.0.merkle_path@, empty),
                leaf_hashed_key: pair.1.spec_key().hashed_key,
                leaf_enumeration_index: leaf_enumeration_index(pair),
                value_written: value_written(pair.1),
                value_read: value_read(pair.0.base),
            },
        )
    }
}

/// Witness information on the answered instructions of a batch, in the order of the instructions.
pub open spec fn witness_logs(
    logs: Seq<TreeLogEntryWithProof>,
    instructions: Seq<TreeInstruction<StorageKey>>,
    empty: Seq<ValueHash>,
) -> Seq<StorageLogMetadataView> {
    paired(logs, instructions).filter_map(|pair| witness_log(pair, empty))
}

/// Completes a Merkle path with the hashes of empty subtrees.
fn complete_merkle_path(merkle_path: &[ValueHash], empty: &EmptySubtreeHashes) -> (res: Vec<
    [u8; 32],
>)
    requires
        empty.wf(),
        merkle_path@.len() <= TREE_DEPTH,
    ensures
        res@ == full_merkle_path(merkle_path@, empty@),
        res@.len() == TREE_DEPTH,
{
    let empty_levels_end = TREE_DEPTH - merkle_path.len();
    let mut hashes: Vec<[u8; 32]> = Vec::with_capacity(TREE_DEPTH);
    let mut i: usize = 0;
    while i < empty_levels_end
        invariant
            empty.wf(),
            empty_levels_end <= TREE_DEPTH,
            i <= empty_levels_end,
            hashes@.len() == i,
            forall|j: int| 0 <= j < i ==> hashes@[j] == empty@[j].0,
        decreases empty_levels_end - i,
    {
        hashes.push(empty.empty_subtree_hash(i).0);
        i += 1;
    }
    let mut i: usize = 0;
    while i < merkle_path.len()
        invariant
            empty_levels_end + merkle_path@.len() == TREE_DEPTH,
            i <= merkle_path@.len(),
            hashes@.len() == empty_levels_end + i,
            forall|j: int| 0 <= j < empty_levels_end ==> hashes@[j] == empty@[j].0,
            forall|j: int|
                empty_levels_end <= j < hashes@.len() ==> hashes@[j] == merkle_path@[j
                    - empty_levels_end].0,
        decreases merkle_path@.len() - i,
    {
        hashes.push(merkle_path[i].0);
        i += 1;
    }
    assert(hashes@ =~= full_merkle_path(merkle_path@, empty@));
    hashes
}

/// Composes witness information on an answered instruction. Returns `None` on a no-op update.
pub fn compose_witness_log(
    log: &TreeLogEntryWithProof,
    instruction: &TreeInstruction<StorageKey>,
    empty: &EmptySubtreeHashes,
) -> (res: Option<StorageLogMetadata>)
    requires
        empty.wf(),
        is_answered((*log, *instruction)),
    ensures
        match res {
            Some(metadata) => Some(metadata@) == witness_log((*log, *instruction), empty@),
            None => witness_log((*log, *instruction), empty@) is None,
        },
{
    let value_written = match instruction {
        TreeInstruction::Write(entry) => entry.value.0,
        TreeInstruction::Read(_) => [0u8; 32],
    };
    let leaf_enumeration_index = match instruction {
        TreeInstruction::Write(entry) => entry.leaf_index,
        TreeInstruction::Read(_) => match &log.base {
            TreeLogEntry::Read { leaf_index, .. } => *leaf_index,
            _ => 0,
        },
    };
    let value_read = match &log.base {
        TreeLogEntry::Updated { previous_value, .. } => {
            if previous_value.equals(&H256(value_written)) {
                // A no-op update is omitted from the witness.
                return None;
            }
            previous_value.0
        },
        TreeLogEntry::Read { value, .. } => value.0,
        TreeLogEntry::Inserted | TreeLogEntry::ReadMissingKey => [0u8; 32],
    };
    Some(
        StorageLogMetadata {
            root_hash: log.root_hash.0,
            is_write: !log.base.is_read(),
            first_write: matches!(log.base, TreeLogEntry::Inserted),
            merkle_paths: complete_merkle_path(log.merkle_path.as_slice(), empty),
            leaf_hashed_key: instruction.key().hashed_key_u256(),
            leaf_enumeration_index,
            value_written,
            value_read,
        },
    )
}

/// Checks whether each log can answer its instruction.
pub fn are_answered(
    logs: &[TreeLogEntryWithProof],
    instructions: &[TreeInstruction<StorageKey>],
) -> (res: bool)
    ensures
        res == forall|i: int|
            0 <= i < paired(logs@, instructions@).len() ==> is_answered(
                #[trigger] paired(logs@, instructions@)[i],
            ),
{
    let ghost pairs = paired(logs@, instructions@);
    let mut i: usize = 0;
    while i < logs.len() && i < instructions.len()
        invariant
            pairs == paired(logs@, instructions@),
            i <= pairs.len(),
            forall|j: int| 0 <= j < i ==> is_answered(#[trigger] pairs[j]),
        decreases pairs.len() - i,
    {
        let log = &logs[i];
        let is_read_of_change = matches!(instructions[i], TreeInstruction::Read(_))
            && !log.base.is_read();
        if log.merkle_path.len() > TREE_DEPTH || is_read_of_change {
            assert(!is_answered(pairs[i as int]));
            return false;
        }
        assert(is_answered(pairs[i as int]));
        i += 1;
    }
    true
}

/// Composes witness information on the answered instructions of a batch, omitting no-op updates.
pub fn compose_witness(
    logs: &[TreeLogEntryWithProof],
    instructions: &[TreeInstruction<StorageKey>],
    empty: &EmptySubtreeHashes,
    next_enumeration_index: u64,
) -> (res: PrepareBasicCircuitsJob)
    requires
        empty.wf(),
        forall|i: int|
            0 <= i < paired(logs@, instructions@).len() ==> is_answered(
                #[trigger] paired(logs@, instructions@)[i],
            ),
    ensures
        res@ == (WitnessView {
            next_enumeration_index,
            logs: witness_logs(logs@, instructions@, empty@),
        }),
{
    let ghost pairs = paired(logs@, instructions@);
    let ghost f = |pair: AnsweredInstruction| witness_log(pair, empty@);
    let mut witness = PrepareBasicCircuitsJob::new(next_enumeration_index);
    assert(pairs.take(0).filter_map(f) =~= Seq::empty()) by {
        reveal(Seq::filter_map);
    }
    let mut i: usize = 0;
    while i < logs.len() && i < instructions.len()
        invariant
            empty.wf(),
            i <= pairs.len(),
            pairs == paired(logs@, instructions@),
            f == (|pair: AnsweredInstruction| witness_log(pair, empty@)),
            forall|i: int| 0 <= i < pairs.len() ==> is_answered(#[trigger] pairs[i]),
            witness@ == (WitnessView {
                next_enumeration_index,
                logs: pairs.take(i as int).filter_map(f),
            }),
        decreases pairs.len() - i,
    {
        proof {
            pairs.lemma_filter_map_take_succ(f, i as int);
            assert(is_answered(pairs[i as int]));
        }
        match compose_witness_log(&logs[i], &instructions[i], empty) {
            Some(log) => witness.push_merkle_path(log),
            None => {},
        }
        i += 1;
    }
    assert(pairs.take(i as int) =~= pairs);
    witness
}

} // verus!
