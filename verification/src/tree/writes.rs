//! Writes that a batch performed in the tree.

use vstd::prelude::*;

use crate::tree::entries::{StorageKey, TreeEntry, TreeLogEntry};
use crate::types::{ValueHash, U256};

verus! {

/// The first write to a storage slot.
#[derive(Debug, Clone, Copy, PartialEq, Eq, Hash)]
pub struct InitialStorageWrite {
    /// Enumeration index that the slot gets.
    pub index: u64,
    /// Key of the leaf.
    pub key: U256,
    /// Value written to the slot.
    pub value: ValueHash,
}

/// A write to a storage slot that has been written before.
#[derive(Debug, Clone, Copy, PartialEq, Eq, Hash)]
pub struct RepeatedStorageWrite {
    /// Enumeration index of the slot.
    pub index: u64,
    /// Value written to the slot.
    pub value: ValueHash,
}

/// Elements of two sequences paired by position; the excess of the longer sequence is dropped.
pub open spec fn paired<A, B>(left: Seq<A>, right: Seq<B>) -> Seq<(A, B)> {
    Seq::new(
        if left.len() <= right.len() {
            left.len()
        } else {
            right.len()
        },
        |i: int| (left[i], right[i]),
    )
}

/// The initial write that a log entry and the entry written make up.
pub open spec fn initial_write(pair: (TreeLogEntry, TreeEntry<StorageKey>)) -> Option<
    InitialStorageWrite,
> {
    match pair.0 {
        TreeLogEntry::Inserted => Some(
            InitialStorageWrite {
                index: pair.1.leaf_index,
                key: pair.1.key.hashed_key,
                value: pair.1.value,
            },
        ),
        _ => None,
    }
}

/// The repeated write that a log entry and the entry written make up. A write of the value that
/// the slot already has is none.
pub open spec fn repeated_write(pair: (TreeLogEntry, TreeEntry<StorageKey>)) -> Option<
    RepeatedStorageWrite,
> {
    match pair.0 {
        TreeLogEntry::Updated { previous_value, .. } => if previous_value != pair.1.value {
            Some(RepeatedStorageWrite { index: pair.1.leaf_index, value: pair.1.value })
        } else {
            None
        },
        _ => None,
    }
}

/// Initial writes among the entries written, in the order of the entries.
pub open spec fn initial_writes(
    logs: Seq<TreeLogEntry>,
    entries: Seq<TreeEntry<StorageKey>>,
) -> Seq<InitialStorageWrite> {
    paired(logs, entries).filter_map(|pair| initial_write(pair))
}

/// Repeated writes among the entries written, in the order of the entries.
pub open spec fn repeated_writes(
    logs: Seq<TreeLogEntry>,
    entries: Seq<TreeEntry<StorageKey>>,
) -> Seq<RepeatedStorageWrite> {
    paired(logs, entries).filter_map(|pair| repeated_write(pair))
}

/// Sorts the entries written into initial and repeated writes by what the tree did on each of them.
pub fn extract_writes(logs: &[TreeLogEntry], entries: &[TreeEntry<StorageKey>]) -> (res: (
    Vec<InitialStorageWrite>,
    Vec<RepeatedStorageWrite>,
))
    ensures
        res.0@ == initial_writes(logs@, entries@),
        res.1@ == repeated_writes(logs@, entries@),
{
    let ghost pairs = paired(logs@, entries@);
    let ghost initial = |pair: (TreeLogEntry, TreeEntry<StorageKey>)| initial_write(pair);
    let ghost repeated = |pair: (TreeLogEntry, TreeEntry<StorageKey>)| repeated_write(pair);
    let mut initial_writes: Vec<InitialStorageWrite> = Vec::new();
    let mut repeated_writes: Vec<RepeatedStorageWrite> = Vec::new();
    proof {
        reveal(Seq::filter_map);
        assert(pairs.take(0).filter_map(initial) =~= Seq::empty());
        assert(pairs.take(0).filter_map(repeated) =~= Seq::empty());
    }
    let mut i: usize = 0;
    while i < logs.len() && i < entries.len()
        invariant
            i <= pairs.len(),
            pairs == paired(logs@, entries@),
            initial == (|pair: (TreeLogEntry, TreeEntry<StorageKey>)| initial_write(pair)),
            repeated == (|pair: (TreeLogEntry, TreeEntry<StorageKey>)| repeated_write(pair)),
            initial_writes@ == pairs.take(i as int).filter_map(initial),
            repeated_writes@ == pairs.take(i as int).filter_map(repeated),
        decreases pairs.len() - i,
    {
        proof {
            pairs.lemma_filter_map_take_succ(initial, i as int);
            pairs.lemma_filter_map_take_succ(repeated, i as int);
        }
        let entry = &entries[i];
        match &logs[i] {
            TreeLogEntry::Inserted => {
                initial_writes.push(
                    InitialStorageWrite {
                        index: entry.leaf_index,
                        key: entry.key.hashed_key_u256(),
                        value: entry.value,
                    },
                );
            },
            TreeLogEntry::Updated { previous_value, .. } => {
                // An update to the same value is omitted from `repeated_writes`.
                if !previous_value.equals(&entry.value) {
                    repeated_writes.push(
                        RepeatedStorageWrite { index: entry.leaf_index, value: entry.value },
                    );
                }
            },
            TreeLogEntry::Read { .. } | TreeLogEntry::ReadMissingKey => {},
        }
        i += 1;
    }
    assert(pairs.take(i as int) =~= pairs);
    (initial_writes, repeated_writes)
}

} // verus!
