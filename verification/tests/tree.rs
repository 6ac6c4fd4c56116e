use zksync_node_core::tree::database::{NoVersionError, TreeDatabase, TreeRoot};
use zksync_node_core::tree::domain::{
    ConsistencyRequest, TreeMetadata, TreeOutput, TreeRequest, ZkSyncTree,
};
use zksync_node_core::tree::entries::{
    filter_write_instructions, BlockOutput, BlockOutputWithProofs, StorageKey, TreeEntry,
    TreeInstruction, TreeLogEntry, TreeLogEntryWithProof, TREE_DEPTH,
};
use zksync_node_core::tree::thread_pool::{worker_thread_name, ThreadPoolInitError};
use zksync_node_core::tree::witness::{
    are_answered, compose_witness_log, EmptySubtreeHashes, PrepareBasicCircuitsJob,
};
use zksync_node_core::tree::writes::{
    extract_writes, InitialStorageWrite, RepeatedStorageWrite,
};
use zksync_node_core::types::{Key, L1BatchNumber, H256, U256};

fn hash(byte: u8) -> H256 {
    H256([byte; 32])
}

fn key(value: u64) -> Key {
    U256([value, 0, 0, 0])
}

fn slot(value: u64) -> StorageKey {
    StorageKey { hashed_key: key(value) }
}

fn entry(key: u64, value: u8, leaf_index: u64) -> TreeEntry<StorageKey> {
    TreeEntry { key: slot(key), value: hash(value), leaf_index }
}

fn write(key: u64, value: u8, leaf_index: u64) -> TreeInstruction<StorageKey> {
    TreeInstruction::Write(entry(key, value, leaf_index))
}

fn read(key: u64) -> TreeInstruction<StorageKey> {
    TreeInstruction::Read(slot(key))
}

fn updated(leaf_index: u64, previous: u8) -> TreeLogEntry {
    TreeLogEntry::Updated { leaf_index, previous_value: hash(previous) }
}

fn empty_hashes() -> EmptySubtreeHashes {
    let hashes: Vec<H256> = (0..=TREE_DEPTH).map(|i| H256([(i % 256) as u8 ^ 0x5a; 32])).collect();
    EmptySubtreeHashes::new(hashes).unwrap()
}

fn root(byte: u8, leaf_count: u64) -> TreeRoot {
    TreeRoot { root_hash: hash(byte), leaf_count }
}

fn database(versions: Vec<Option<TreeRoot>>) -> TreeDatabase {
    TreeDatabase::new(versions, empty_hashes(), 500)
}

fn proven(base: TreeLogEntry, path: Vec<H256>, root: u8) -> TreeLogEntryWithProof {
    TreeLogEntryWithProof { base, merkle_path: path, root_hash: hash(root) }
}

fn plain_output(root: u8, leaf_count: u64, logs: Vec<TreeLogEntry>) -> TreeOutput {
    TreeOutput::WithoutProofs(BlockOutput { root_hash: hash(root), leaf_count, logs })
}

/// A batch with all kinds of instructions and answers.
fn mixed_batch() -> (Vec<TreeInstruction<StorageKey>>, Vec<TreeLogEntryWithProof>) {
    let instructions = vec![
        read(1),
        write(2, 20, 7),
        read(3),
        write(4, 40, 2),
        write(5, 50, 3),
    ];
    let logs = vec![
        proven(TreeLogEntry::Read { leaf_index: 1, value: hash(11) }, vec![hash(201)], 101),
        proven(TreeLogEntry::Inserted, vec![], 102),
        proven(TreeLogEntry::ReadMissingKey, vec![hash(202), hash(203)], 102),
        proven(updated(2, 39), vec![], 103),
        proven(updated(3, 50), vec![], 103),
    ];
    (instructions, logs)
}

fn process_mixed_batch(tree: &mut ZkSyncTree) -> TreeMetadata {
    let (instructions, logs) = mixed_batch();
    let output = TreeOutput::WithProofs(BlockOutputWithProofs { logs, leaf_count: 7 });
    assert!(tree.accepts_output(&instructions, &output));
    tree.process_l1_batch(&instructions, output)
}

#[test]
fn hashes_are_compared_bytewise() {
    assert!(hash(1).equals(&hash(1)));
    let mut other = hash(1);
    other.0[31] = 0;
    assert!(!hash(1).equals(&other));
}

#[test]
fn table_of_empty_subtrees_needs_all_heights() {
    assert!(EmptySubtreeHashes::new(vec![hash(0); 257]).is_some());
    assert!(EmptySubtreeHashes::new(vec![hash(0); 256]).is_none());
    assert!(EmptySubtreeHashes::new(vec![]).is_none());
}

#[test]
fn writes_are_filtered_in_order() {
    let writes = filter_write_instructions(&[read(1), write(2, 3, 4), read(5), write(6, 7, 8)]);
    assert_eq!(writes, vec![entry(2, 3, 4), entry(6, 7, 8)]);
}

#[test]
fn genesis_batch_consists_of_writes() {
    let writes = ZkSyncTree::process_genesis_batch(&[read(1), write(2, 3, 4)]);
    assert_eq!(writes, vec![TreeEntry { key: key(2), value: hash(3), leaf_index: 4 }]);
}

#[test]
fn writes_are_extracted() {
    let logs = [
        TreeLogEntry::Inserted,
        updated(2, 8),
        updated(3, 9),
        TreeLogEntry::ReadMissingKey,
        TreeLogEntry::Read { leaf_index: 1, value: hash(1) },
    ];
    let entries = [
        entry(10, 7, 1),
        entry(20, 9, 2),
        entry(30, 9, 3),
        entry(40, 1, 4),
        entry(50, 1, 5),
    ];
    let (initial, repeated) = extract_writes(&logs, &entries);
    assert_eq!(initial, vec![InitialStorageWrite { index: 1, key: key(10), value: hash(7) }]);
    // The update to the same value is omitted.
    assert_eq!(repeated, vec![RepeatedStorageWrite { index: 2, value: hash(9) }]);
}

#[test]
fn excess_entries_are_not_extracted() {
    let (initial, repeated) =
        extract_writes(&[TreeLogEntry::Inserted], &[entry(1, 1, 1), entry(2, 2, 2)]);
    assert_eq!(initial.len(), 1);
    assert!(repeated.is_empty());
}

#[test]
fn batch_in_full_mode() {
    let mut tree = ZkSyncTree::new(database(vec![Some(root(100, 6))]));
    let (instructions, _) = mixed_batch();
    let request = tree.prepare_l1_batch(&instructions);
    assert_eq!(
        request,
        TreeRequest::ExtendWithProofs(vec![
            TreeInstruction::Read(key(1)),
            TreeInstruction::Write(TreeEntry { key: key(2), value: hash(20), leaf_index: 7 }),
            TreeInstruction::Read(key(3)),
            TreeInstruction::Write(TreeEntry { key: key(4), value: hash(40), leaf_index: 2 }),
            TreeInstruction::Write(TreeEntry { key: key(5), value: hash(50), leaf_index: 3 }),
        ])
    );

    let metadata = process_mixed_batch(&mut tree);
    assert_eq!(metadata.root_hash, hash(103));
    assert_eq!(metadata.rollup_last_leaf_index, 8);
    assert_eq!(
        metadata.initial_writes,
        vec![InitialStorageWrite { index: 7, key: key(2), value: hash(20) }]
    );
    assert_eq!(metadata.repeated_writes, vec![RepeatedStorageWrite { index: 2, value: hash(40) }]);

    let witness = metadata.witness.unwrap();
    assert_eq!(witness.next_enumeration_index, 7);
    // The no-op update is omitted.
    assert_eq!(witness.merkle_paths.len(), 4);
    for log in &witness.merkle_paths {
        assert_eq!(log.merkle_paths.len(), TREE_DEPTH);
    }

    let log = &witness.merkle_paths[0];
    assert_eq!(log.root_hash, [101; 32]);
    assert!(!log.is_write && !log.first_write);
    assert_eq!(log.leaf_hashed_key, key(1));
    assert_eq!(log.leaf_enumeration_index, 1);
    assert_eq!((log.value_written, log.value_read), ([0; 32], [11; 32]));
    assert_eq!(log.merkle_paths[255], [201; 32]);
    assert_eq!(log.merkle_paths[254], empty_hashes().empty_subtree_hash(254).0);
    assert_eq!(log.merkle_paths[0], empty_hashes().empty_subtree_hash(0).0);

    let log = &witness.merkle_paths[1];
    assert!(log.is_write && log.first_write);
    assert_eq!(log.leaf_enumeration_index, 7);
    assert_eq!((log.value_written, log.value_read), ([20; 32], [0; 32]));

    let log = &witness.merkle_paths[2];
    assert!(!log.is_write);
    assert_eq!(log.leaf_enumeration_index, 0);
    assert_eq!((log.value_written, log.value_read), ([0; 32], [0; 32]));
    assert_eq!(log.merkle_paths[254], [202; 32]);
    assert_eq!(log.merkle_paths[255], [203; 32]);

    let log = &witness.merkle_paths[3];
    assert!(log.is_write && !log.first_write);
    assert_eq!(log.leaf_enumeration_index, 2);
    assert_eq!((log.value_written, log.value_read), ([40; 32], [39; 32]));
}

#[test]
fn batch_in_lightweight_mode() {
    let mut tree = ZkSyncTree::new_lightweight(database(vec![]));
    let (instructions, logs) = mixed_batch();
    assert_eq!(
        tree.prepare_l1_batch(&instructions),
        TreeRequest::Extend(vec![
            TreeEntry { key: key(2), value: hash(20), leaf_index: 7 },
            TreeEntry { key: key(4), value: hash(40), leaf_index: 2 },
            TreeEntry { key: key(5), value: hash(50), leaf_index: 3 },
        ])
    );
    let changes: Vec<_> = logs.iter().map(|log| log.base).filter(|base| !base.is_read()).collect();
    let output = plain_output(103, 7, changes);
    assert!(tree.accepts_output(&instructions, &output));
    let metadata = tree.process_l1_batch(&instructions, output);

    // Apart from the witness, the metadata is the same as in the full mode.
    let mut full_tree = ZkSyncTree::new(database(vec![]));
    let mut full_metadata = process_mixed_batch(&mut full_tree);
    assert!(full_metadata.witness.take().is_some());
    assert_eq!(metadata, full_metadata);
}

#[test]
fn empty_batch_keeps_root_hash() {
    let mut tree = ZkSyncTree::new(database(vec![Some(root(100, 6))]));
    let output = TreeOutput::WithProofs(BlockOutputWithProofs { logs: vec![], leaf_count: 6 });
    let metadata = tree.process_l1_batch(&[], output);
    assert_eq!(metadata.root_hash, hash(100));
    assert_eq!(metadata.rollup_last_leaf_index, 7);
    assert_eq!(metadata.witness, Some(PrepareBasicCircuitsJob::new(7)));
    assert_eq!(tree.next_l1_batch_number(), L1BatchNumber(2));
}

#[test]
fn enumeration_continues_in_next_batch() {
    let mut tree = ZkSyncTree::new(database(vec![]));
    let metadata = process_mixed_batch(&mut tree);
    let next_metadata = process_mixed_batch(&mut tree);
    assert_eq!(
        next_metadata.witness.unwrap().next_enumeration_index,
        metadata.rollup_last_leaf_index
    );
}

#[test]
fn unacceptable_outputs() {
    let full_tree = ZkSyncTree::new(database(vec![]));
    let light_tree = ZkSyncTree::new_lightweight(database(vec![]));
    let with_proofs = |logs, leaf_count| {
        TreeOutput::WithProofs(BlockOutputWithProofs { logs, leaf_count })
    };
    // The output is not of the kind that was requested.
    assert!(!full_tree.accepts_output(&[], &plain_output(1, 0, vec![])));
    assert!(!light_tree.accepts_output(&[], &with_proofs(vec![], 0)));
    // The index of the next leaf overflows.
    assert!(!full_tree.accepts_output(&[], &with_proofs(vec![], u64::MAX)));
    assert!(!light_tree.accepts_output(&[], &plain_output(1, u64::MAX, vec![])));
    // A read changes the tree.
    let logs = vec![proven(TreeLogEntry::Inserted, vec![], 1)];
    assert!(!full_tree.accepts_output(&[read(1)], &with_proofs(logs, 1)));
    // A proof is longer than the tree is deep.
    let logs = vec![proven(TreeLogEntry::Inserted, vec![hash(1); 257], 1)];
    assert!(!are_answered(&logs, &[write(1, 1, 1)]));
    let logs = vec![proven(TreeLogEntry::Inserted, vec![hash(1); 256], 1)];
    assert!(are_answered(&logs, &[write(1, 1, 1)]));
}

#[test]
fn full_proof_is_not_padded() {
    let path: Vec<H256> = (0..256).map(|i| hash(i as u8)).collect();
    let log = proven(TreeLogEntry::Inserted, path, 1);
    let metadata = compose_witness_log(&log, &write(1, 1, 1), &empty_hashes()).unwrap();
    let expected: Vec<[u8; 32]> = (0..256).map(|i| [i as u8; 32]).collect();
    assert_eq!(metadata.merkle_paths, expected);
}

#[test]
fn noop_update_has_no_witness() {
    let log = proven(updated(1, 5), vec![], 1);
    assert!(compose_witness_log(&log, &write(1, 5, 1), &empty_hashes()).is_none());
    assert!(compose_witness_log(&log, &write(1, 6, 1), &empty_hashes()).is_some());
}

#[test]
fn new_tree_is_empty() {
    let tree = ZkSyncTree::new(database(vec![]));
    assert!(tree.is_empty());
    assert_eq!(tree.next_l1_batch_number(), L1BatchNumber(0));
    assert_eq!(tree.root_hash(), empty_hashes().empty_tree_hash());
    assert_eq!(tree.reader().root_hash(tree.database()), empty_hashes().empty_tree_hash());
    assert_eq!(tree.reader().leaf_count(tree.database()), 0);
    assert!(!tree.is_pruning_enabled());
    assert!(tree.thread_pool().is_none());
}

#[test]
fn tree_without_latest_root_is_empty() {
    let tree = ZkSyncTree::new(database(vec![Some(root(1, 1)), None]));
    assert!(tree.is_empty());
    assert_eq!(tree.next_l1_batch_number(), L1BatchNumber(2));
    assert_eq!(tree.root_hash(), empty_hashes().empty_tree_hash());
}

#[test]
fn unsaved_batches_are_not_seen_by_reader() {
    let mut tree = ZkSyncTree::new_lightweight(database(vec![Some(root(1, 1))]));
    tree.process_l1_batch(&[], plain_output(2, 5, vec![]));
    assert_eq!(tree.root_hash(), hash(2));
    assert!(!tree.is_empty());
    assert_eq!(tree.next_l1_batch_number(), L1BatchNumber(2));

    let reader = tree.reader();
    assert_eq!(reader.root_hash(tree.database()), hash(1));
    assert_eq!(reader.leaf_count(tree.database()), 1);
    assert_eq!(reader.clone().next_l1_batch_number(tree.database()), L1BatchNumber(1));

    // The reader sees a save that happens after it was obtained.
    assert_eq!(tree.save(), vec![1]);
    assert_eq!(reader, tree.reader());
    assert_eq!(reader.root_hash(tree.database()), hash(2));
    assert_eq!(reader.leaf_count(tree.database()), 5);
    assert_eq!(reader.next_l1_batch_number(tree.database()), L1BatchNumber(2));
    assert_eq!(tree.save(), Vec::<u64>::new());
}

#[test]
fn reset_discards_unsaved_batches() {
    let mut tree = ZkSyncTree::new_lightweight(database(vec![Some(root(1, 1))]));
    tree.process_l1_batch(&[], plain_output(2, 5, vec![]));
    tree.process_l1_batch(&[], plain_output(3, 6, vec![]));
    tree.reset();
    assert_eq!(tree.root_hash(), hash(1));
    assert_eq!(tree.next_l1_batch_number(), L1BatchNumber(1));
    // Saved batches survive a reset.
    tree.process_l1_batch(&[], plain_output(4, 7, vec![]));
    tree.save();
    tree.reset();
    assert_eq!(tree.root_hash(), hash(4));
}

#[test]
fn revert_restores_saved_version() {
    let versions = vec![Some(root(1, 1)), Some(root(2, 2)), Some(root(3, 3))];
    let mut tree = ZkSyncTree::new_lightweight(database(versions));
    tree.process_l1_batch(&[], plain_output(4, 4, vec![]));
    assert_eq!(tree.revert_logs(L1BatchNumber(1)), 2);
    assert_eq!(tree.root_hash(), hash(2));
    assert_eq!(tree.next_l1_batch_number(), L1BatchNumber(2));
    // The database does not change until the revert is saved.
    assert_eq!(tree.reader().next_l1_batch_number(tree.database()), L1BatchNumber(3));

    // Only the last revert counts.
    assert_eq!(tree.revert_logs(L1BatchNumber(0)), 1);
    assert_eq!(tree.root_hash(), hash(1));
    tree.process_l1_batch(&[], plain_output(5, 5, vec![]));
    assert_eq!(tree.save(), vec![1]);
    assert_eq!(tree.reader().root_hash(tree.database()), hash(5));
    assert_eq!(tree.reader().next_l1_batch_number(tree.database()), L1BatchNumber(2));
}

#[test]
fn revert_to_future_batch_only_discards_changes() {
    let mut tree = ZkSyncTree::new_lightweight(database(vec![Some(root(1, 1))]));
    tree.process_l1_batch(&[], plain_output(2, 2, vec![]));
    assert_eq!(tree.revert_logs(L1BatchNumber(10)), 11);
    assert_eq!(tree.root_hash(), hash(1));
    assert_eq!(tree.next_l1_batch_number(), L1BatchNumber(1));
}

#[test]
fn revert_undoes_saved_batches() {
    let mut tree = ZkSyncTree::new_lightweight(database(vec![Some(root(1, 1))]));
    tree.process_l1_batch(&[], plain_output(2, 2, vec![]));
    tree.process_l1_batch(&[], plain_output(3, 3, vec![]));
    tree.save();
    tree.revert_logs(L1BatchNumber(0));
    assert_eq!(tree.root_hash(), hash(1));
    assert_eq!(tree.next_l1_batch_number(), L1BatchNumber(1));
}

#[test]
fn entries_are_requested_in_order() {
    let tree = ZkSyncTree::new(database(vec![None, Some(root(1, 1))]));
    let reader = tree.reader();
    let keys = [key(3), key(1), key(2)];
    let request = reader.entries_with_proofs(tree.database(), L1BatchNumber(1), &keys).unwrap();
    assert_eq!(request.version, 1);
    assert_eq!(request.keys, keys);

    let err = reader.entries_with_proofs(tree.database(), L1BatchNumber(2), &keys).unwrap_err();
    assert_eq!(err, NoVersionError { missing_version: 2, version_count: 2 });
    let err = reader.entries_with_proofs(tree.database(), L1BatchNumber(0), &keys).unwrap_err();
    assert_eq!(err, NoVersionError { missing_version: 0, version_count: 2 });
}

#[test]
fn pruned_versions_are_missing() {
    let versions = vec![Some(root(1, 1)), Some(root(2, 2)), Some(root(3, 3))];
    let mut tree = ZkSyncTree::new_lightweight(database(versions));
    tree.pruner();
    tree.mark_pruned(2);
    assert_eq!(tree.version_count(), 3);
    assert_eq!(tree.root_hash(), hash(3));
    let reader = tree.reader();
    assert_eq!(reader.leaf_count(tree.database()), 3);
    for number in [0, 1] {
        let err = reader.entries_with_proofs(tree.database(), L1BatchNumber(number), &[key(1)]).unwrap_err();
        let missing_version = u64::from(number);
        assert_eq!(err, NoVersionError { missing_version, version_count: 3 });
    }
    assert!(reader.entries_with_proofs(tree.database(), L1BatchNumber(2), &[key(1)]).is_ok());

    // Marks beyond the saved versions concern the saved versions only.
    tree.process_l1_batch(&[], plain_output(4, 4, vec![]));
    tree.mark_pruned(u64::MAX);
    assert_eq!(tree.root_hash(), hash(4));
    assert_eq!(tree.version_count(), 4);
    assert_eq!(tree.reader().leaf_count(tree.database()), 0);
}

#[test]
fn batches_that_keep_leaf_count_keep_emptiness() {
    let mut tree = ZkSyncTree::new_lightweight(database(vec![]));
    tree.process_l1_batch(&[], plain_output(1, 0, vec![]));
    assert!(tree.is_empty());
    tree.process_l1_batch(&[], plain_output(2, 2, vec![]));
    tree.process_l1_batch(&[], plain_output(2, 2, vec![]));
    assert!(!tree.is_empty());
}

#[test]
fn consistency_is_checked_with_indices() {
    let tree = ZkSyncTree::new(database(vec![Some(root(1, 1))]));
    assert_eq!(
        tree.verify_consistency(L1BatchNumber(0)),
        ConsistencyRequest { version: 0, validate_indices: true }
    );
}

#[test]
fn tree_settings() {
    let mut tree = ZkSyncTree::new(database(vec![]));
    tree.set_multi_get_chunk_size(usize::MAX);
    tree.pruner();
    assert!(tree.is_pruning_enabled());

    let mut db = database(vec![Some(root(1, 1))]);
    assert_eq!(db.multi_get_chunk_size(), 500);
    db.set_multi_get_chunk_size(1);
    assert_eq!(db.multi_get_chunk_size(), 1);
    assert_eq!(db.version_count(), 1);
    assert_eq!(db.root(0), Some(root(1, 1)));
}

#[test]
fn dedicated_thread_pool_has_requested_threads() {
    let mut tree = ZkSyncTree::new(database(vec![]));
    tree.use_dedicated_thread_pool(3).unwrap();
    let pool = tree.thread_pool().unwrap();
    assert_eq!(pool.current_num_threads(), 3);
    assert_eq!(pool.install(|| rayon::current_num_threads()), 3);

    tree.use_dedicated_thread_pool(0).unwrap();
    assert!(tree.thread_pool().unwrap().current_num_threads() > 0);
}

#[test]
fn failed_thread_pool_leaves_tree_as_it_was() {
    let mut tree = ZkSyncTree::new(database(vec![]));
    let err = ThreadPoolInitError { thread_count: 3 };
    assert_eq!(tree.set_dedicated_thread_pool(Err(err)), Err(err));
    assert!(tree.thread_pool().is_none());
}

#[test]
fn worker_threads_are_named() {
    assert_eq!(worker_thread_name(0), "new-merkle-tree-0");
    assert_eq!(worker_thread_name(1205), "new-merkle-tree-1205");
}
