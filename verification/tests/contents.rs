//! Batches on a tree whose Merkle tree is a plain list of leaves.

use zksync_node_core::tree::database::TreeDatabase;
use zksync_node_core::tree::domain::{TreeMetadata, TreeOutput, TreeRequest, ZkSyncTree};
use zksync_node_core::tree::entries::{
    BlockOutput, BlockOutputWithProofs, StorageKey, TreeEntry, TreeInstruction, TreeLogEntry,
    TreeLogEntryWithProof, TREE_DEPTH,
};
use zksync_node_core::tree::witness::EmptySubtreeHashes;
use zksync_node_core::types::{Key, L1BatchNumber, H256, U256};

/// Leaves in the order of insertion, with a checksum in place of a root hash.
#[derive(Clone)]
struct ListTree {
    leaves: Vec<TreeEntry<Key>>,
}

impl ListTree {
    fn new() -> Self {
        Self { leaves: vec![] }
    }

    fn root_hash(&self) -> H256 {
        let mut bytes = [self.leaves.len() as u8; 32];
        for leaf in &self.leaves {
            let position = (leaf.leaf_index % 31) as usize + 1;
            bytes[position] ^= leaf.value.0[0];
            bytes[0] = bytes[0].wrapping_mul(31).wrapping_add(leaf.value.0[0]);
        }
        H256(bytes)
    }

    fn find(&self, key: Key) -> Option<&TreeEntry<Key>> {
        self.leaves.iter().find(|leaf| leaf.key == key)
    }

    fn write(&mut self, entry: TreeEntry<Key>) -> TreeLogEntry {
        for leaf in &mut self.leaves {
            if leaf.key == entry.key {
                let log = TreeLogEntry::Updated {
                    leaf_index: leaf.leaf_index,
                    previous_value: leaf.value,
                };
                *leaf = entry;
                return log;
            }
        }
        self.leaves.push(entry);
        TreeLogEntry::Inserted
    }

    fn apply(&mut self, instruction: TreeInstruction<Key>) -> TreeLogEntry {
        match instruction {
            TreeInstruction::Write(entry) => self.write(entry),
            TreeInstruction::Read(key) => match self.find(key) {
                Some(leaf) => {
                    TreeLogEntry::Read { leaf_index: leaf.leaf_index, value: leaf.value }
                }
                None => TreeLogEntry::ReadMissingKey,
            },
        }
    }

    fn extend(&mut self, entries: Vec<TreeEntry<Key>>) -> BlockOutput {
        let logs = entries.into_iter().map(|entry| self.write(entry)).collect();
        BlockOutput {
            root_hash: self.root_hash(),
            leaf_count: self.leaves.len() as u64,
            logs,
        }
    }

    fn answer(&mut self, request: TreeRequest) -> TreeOutput {
        match request {
            TreeRequest::Extend(entries) => TreeOutput::WithoutProofs(self.extend(entries)),
            TreeRequest::ExtendWithProofs(instructions) => {
                let mut logs = vec![];
                for instruction in instructions {
                    let base = self.apply(instruction);
                    let root_hash = self.root_hash();
                    logs.push(TreeLogEntryWithProof { base, merkle_path: vec![], root_hash });
                }
                let leaf_count = self.leaves.len() as u64;
                TreeOutput::WithProofs(BlockOutputWithProofs { logs, leaf_count })
            }
        }
    }
}

fn database() -> TreeDatabase {
    let mut hashes = vec![H256([0xee; 32]); TREE_DEPTH];
    hashes.push(ListTree::new().root_hash());
    TreeDatabase::new(vec![], EmptySubtreeHashes::new(hashes).unwrap(), 500)
}

fn slot(value: u64) -> StorageKey {
    StorageKey { hashed_key: U256([value, 0, 0, 0]) }
}

fn write(key: u64, value: u8, leaf_index: u64) -> TreeInstruction<StorageKey> {
    TreeInstruction::Write(TreeEntry { key: slot(key), value: H256([value; 32]), leaf_index })
}

fn read(key: u64) -> TreeInstruction<StorageKey> {
    TreeInstruction::Read(slot(key))
}

fn process(
    tree: &mut ZkSyncTree,
    merkle_tree: &mut ListTree,
    storage_logs: &[TreeInstruction<StorageKey>],
) -> TreeMetadata {
    let output = merkle_tree.answer(tree.prepare_l1_batch(storage_logs));
    assert!(tree.accepts_output(storage_logs, &output));
    tree.process_l1_batch(storage_logs, output)
}

fn first_batch() -> Vec<TreeInstruction<StorageKey>> {
    vec![write(10, 1, 1), read(99), write(20, 2, 2), read(10), write(30, 3, 3)]
}

fn second_batch() -> Vec<TreeInstruction<StorageKey>> {
    vec![read(20), write(20, 5, 2), write(40, 4, 4), write(10, 1, 1)]
}

#[test]
fn modes_agree_over_batches() {
    let mut full = ZkSyncTree::new(database());
    let mut full_merkle_tree = ListTree::new();
    let mut light = ZkSyncTree::new_lightweight(database());
    let mut light_merkle_tree = ListTree::new();
    for batch in [first_batch(), second_batch(), vec![], vec![read(1)], first_batch()] {
        let mut full_metadata = process(&mut full, &mut full_merkle_tree, &batch);
        let light_metadata = process(&mut light, &mut light_merkle_tree, &batch);
        assert!(full_metadata.witness.take().is_some());
        assert!(light_metadata.witness.is_none());
        assert_eq!(full_metadata, light_metadata);
        assert_eq!(full.root_hash(), light.root_hash());
        assert_eq!(full.root_hash(), light_merkle_tree.root_hash());
    }
}

#[test]
fn initial_writes_add_leaves() {
    let mut tree = ZkSyncTree::new(database());
    let mut merkle_tree = ListTree::new();
    let metadata = process(&mut tree, &mut merkle_tree, &first_batch());
    assert_eq!(metadata.initial_writes.len(), 3);
    assert_eq!(metadata.rollup_last_leaf_index, 4);
    let metadata = process(&mut tree, &mut merkle_tree, &second_batch());
    assert_eq!(metadata.initial_writes.len(), 1);
    assert_eq!(metadata.repeated_writes.len(), 1);
    assert_eq!(metadata.rollup_last_leaf_index, 5);
}

#[test]
fn witness_ends_with_root_hash() {
    let mut tree = ZkSyncTree::new(database());
    let mut merkle_tree = ListTree::new();
    process(&mut tree, &mut merkle_tree, &first_batch());
    // The last log is a no-op update, which the witness omits.
    let metadata = process(&mut tree, &mut merkle_tree, &second_batch());
    let witness = metadata.witness.unwrap();
    assert_eq!(witness.merkle_paths.len(), 3);
    assert_eq!(witness.merkle_paths[2].root_hash, metadata.root_hash.0);
    assert_eq!(tree.root_hash(), metadata.root_hash);
    // A no-op update before another log may carry any index.
    let batch = [write(10, 1, 9), write(30, 8, 3)];
    let metadata = process(&mut tree, &mut merkle_tree, &batch);
    let witness = metadata.witness.unwrap();
    assert_eq!(witness.merkle_paths.len(), 1);
    assert_eq!(witness.merkle_paths[0].root_hash, metadata.root_hash.0);
    // Without logs in the witness, the root hash stays.
    let next_metadata = process(&mut tree, &mut merkle_tree, &[write(10, 1, 9)]);
    assert!(next_metadata.witness.unwrap().merkle_paths.is_empty());
    assert_eq!(next_metadata.root_hash, metadata.root_hash);
}

#[test]
fn repeated_batch_changes_nothing() {
    for mut tree in [ZkSyncTree::new(database()), ZkSyncTree::new_lightweight(database())] {
        let mut merkle_tree = ListTree::new();
        let first = process(&mut tree, &mut merkle_tree, &first_batch());
        let second = process(&mut tree, &mut merkle_tree, &first_batch());
        assert_eq!(second.root_hash, first.root_hash);
        assert_eq!(second.rollup_last_leaf_index, first.rollup_last_leaf_index);
        assert!(second.initial_writes.is_empty());
        assert!(second.repeated_writes.is_empty());
        if let Some(witness) = second.witness {
            assert_eq!(witness.merkle_paths.len(), 2);
            assert!(witness.merkle_paths.iter().all(|log| !log.is_write));
        }
        assert_eq!(tree.next_l1_batch_number(), L1BatchNumber(2));
    }
}

#[test]
fn repeated_batch_with_key_written_twice_changes_values() {
    let batch = [write(10, 1, 1), write(10, 2, 1)];
    let mut tree = ZkSyncTree::new(database());
    let mut merkle_tree = ListTree::new();
    process(&mut tree, &mut merkle_tree, &batch);
    let metadata = process(&mut tree, &mut merkle_tree, &batch);
    assert_eq!(metadata.repeated_writes.len(), 2);
}

#[test]
fn genesis_agrees_with_first_batch() {
    let kvs = ZkSyncTree::process_genesis_batch(&first_batch());
    let genesis = ListTree::new().extend(kvs);
    assert_eq!(genesis.leaf_count, 3);
    for mut tree in [ZkSyncTree::new(database()), ZkSyncTree::new_lightweight(database())] {
        let metadata = process(&mut tree, &mut ListTree::new(), &first_batch());
        assert_eq!(metadata.root_hash, genesis.root_hash);
        assert_eq!(metadata.rollup_last_leaf_index, genesis.leaf_count + 1);
    }
    let repeated_kvs = ZkSyncTree::process_genesis_batch(&first_batch());
    assert_eq!(ListTree::new().extend(repeated_kvs), genesis);
}

#[test]
fn tree_is_empty_until_first_write() {
    let mut tree = ZkSyncTree::new(database());
    let mut merkle_tree = ListTree::new();
    let metadata = process(&mut tree, &mut merkle_tree, &[read(1), read(2)]);
    assert!(tree.is_empty());
    assert_eq!(metadata.rollup_last_leaf_index, 1);
    assert_eq!(metadata.root_hash, ListTree::new().root_hash());
    let metadata = process(&mut tree, &mut merkle_tree, &[write(1, 1, 1)]);
    assert!(!tree.is_empty());
    assert_eq!(metadata.rollup_last_leaf_index, 2);
    process(&mut tree, &mut merkle_tree, &[]);
    assert!(!tree.is_empty());
}

#[test]
fn reader_counts_keys_of_remaining_batches() {
    let mut tree = ZkSyncTree::new_lightweight(database());
    let reader = tree.reader();
    let mut merkle_tree = ListTree::new();
    process(&mut tree, &mut merkle_tree, &[write(1, 1, 1), write(2, 2, 2), write(1, 3, 1)]);
    let merkle_tree_after_first = merkle_tree.clone();
    process(&mut tree, &mut merkle_tree, &[write(3, 3, 3)]);
    tree.save();
    assert_eq!(reader.leaf_count(tree.database()), 3);

    // A batch that is discarded adds nothing.
    process(&mut tree, &mut merkle_tree, &[write(9, 9, 4)]);
    tree.reset();
    tree.save();
    assert_eq!(reader.leaf_count(tree.database()), 3);

    // Neither does a batch that is reverted.
    tree.revert_logs(L1BatchNumber(0));
    let mut merkle_tree = merkle_tree_after_first;
    process(&mut tree, &mut merkle_tree, &[read(3), write(2, 5, 2)]);
    tree.save();
    assert_eq!(reader.leaf_count(tree.database()), 2);
    assert_eq!(reader.root_hash(tree.database()), merkle_tree.root_hash());
    assert_eq!(reader.next_l1_batch_number(tree.database()), L1BatchNumber(2));
}

#[test]
fn initial_writes_have_distinct_keys() {
    let mut tree = ZkSyncTree::new(database());
    let mut merkle_tree = ListTree::new();
    let batch = [write(1, 1, 1), write(1, 2, 1), write(2, 1, 2), write(1, 3, 1), write(2, 1, 2)];
    let metadata = process(&mut tree, &mut merkle_tree, &batch);
    let keys: Vec<Key> = metadata.initial_writes.iter().map(|write| write.key).collect();
    assert_eq!(keys, [slot(1).hashed_key, slot(2).hashed_key]);
    assert_eq!(metadata.repeated_writes.len(), 2);
}

#[test]
fn reader_reports_last_saved_batch() {
    let mut tree = ZkSyncTree::new(database());
    let mut merkle_tree = ListTree::new();
    let first = process(&mut tree, &mut merkle_tree, &first_batch());
    let saved_merkle_tree = merkle_tree.clone();
    tree.save();
    let second = process(&mut tree, &mut merkle_tree, &second_batch());
    // There are 3 distinct keys among the writes that are saved.
    assert_eq!(tree.reader().leaf_count(tree.database()), 3);
    assert_eq!(tree.reader().leaf_count(tree.database()), first.rollup_last_leaf_index - 1);
    tree.save();
    assert_eq!(tree.reader().leaf_count(tree.database()), 4);
    assert_eq!(tree.reader().leaf_count(tree.database()), second.rollup_last_leaf_index - 1);

    tree.revert_logs(L1BatchNumber(0));
    assert_eq!(tree.reader().leaf_count(tree.database()), 4);
    assert_eq!(tree.root_hash(), first.root_hash);
    tree.save();
    let reader = tree.reader();
    assert_eq!(reader.leaf_count(tree.database()), 3);
    assert_eq!(reader.root_hash(tree.database()), saved_merkle_tree.root_hash());
    assert_eq!(reader.clone().root_hash(tree.database()), first.root_hash);
    assert_eq!(reader.next_l1_batch_number(tree.database()), L1BatchNumber(1));
}
