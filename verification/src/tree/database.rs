//! What the database knows of the versions of the tree.

use vstd::prelude::*;

use crate::tree::entries::TREE_DEPTH;
use crate::tree::witness::EmptySubtreeHashes;
use crate::types::{Key, L1BatchNumber, ValueHash};

verus! {

/// Root of a version of the tree.
#[derive(Debug, Clone, Copy, PartialEq, Eq, Hash)]
pub struct TreeRoot {
    /// Hash of the root.
    pub root_hash: ValueHash,
    /// Number of leaves; 0 if the tree is empty.
    pub leaf_count: u64,
}

/// Roots of successive versions of the tree, starting with version 0. There is one version for each
/// L1 batch. The root of a version is `None` if it is no longer available.
pub type Versions = Seq<Option<TreeRoot>>;

/// Root of the latest version. A tree without versions, or with its latest root unavailable, counts
/// as empty.
pub open spec fn latest_root(versions: Versions, empty_tree_hash: ValueHash) -> TreeRoot {
    if versions.len() > 0 && versions.last() is Some {
        versions.last()->0
    } else {
        TreeRoot { root_hash: empty_tree_hash, leaf_count: 0 }
    }
}

/// The versions with all of them before the specified one removed: their roots are no longer
/// available, while the numbers of the other versions stay the same.
pub open spec fn pruned(versions: Versions, first_retained_version: nat) -> Versions {
    Seq::new(
        versions.len(),
        |i: int|
            if i < first_retained_version {
                None
            } else {
                versions[i]
            },
    )
}

/// The tree version that was asked for is missing.
#[derive(Debug, Clone, Copy, PartialEq, Eq)]
pub struct NoVersionError {
    /// The version that was asked for.
    pub missing_version: u64,
    /// Number of versions in the tree.
    pub version_count: u64,
}

/// Saved state of the tree.
#[derive(Debug)]
pub struct TreeDatabase {
    versions: Vec<Option<TreeRoot>>,
    empty_subtree_hashes: EmptySubtreeHashes,
    multi_get_chunk_size: usize,
}

/// Abstract contents of a [`TreeDatabase`].
#[verifier::ext_equal]
pub struct TreeDatabaseView {
    pub versions: Versions,
    pub empty_subtree_hashes: Seq<ValueHash>,
    pub multi_get_chunk_size: usize,
}

impl TreeDatabaseView {
    /// Root hash of a tree without leaves.
    pub open spec fn empty_tree_hash(self) -> ValueHash {
        self.empty_subtree_hashes[TREE_DEPTH as int]
    }

    /// Root of the latest saved version.
    pub open spec fn latest_root(self) -> TreeRoot {
        latest_root(self.versions, self.empty_tree_hash())
    }
}

impl View for TreeDatabase {
    type V = TreeDatabaseView;

    closed spec fn view(&self) -> TreeDatabaseView {
        TreeDatabaseView {
            versions: self.versions@,
            empty_subtree_hashes: self.empty_subtree_hashes@,
            multi_get_chunk_size: self.multi_get_chunk_size,
        }
    }
}

impl TreeDatabase {
    /// There are hashes of empty subtrees for all heights, and reads are split into non-empty
    /// chunks.
    pub open spec fn wf(&self) -> bool {
        &&& self@.empty_subtree_hashes.len() == TREE_DEPTH + 1
        &&& self@.multi_get_chunk_size > 0
    }

    /// Describes a database that holds the specified versions of the tree.
    pub fn new(
        versions: Vec<Option<TreeRoot>>,
        empty_subtree_hashes: EmptySubtreeHashes,
        multi_get_chunk_size: usize,
    ) -> (res: Self)
        requires
            empty_subtree_hashes.wf(),
            multi_get_chunk_size > 0,
        ensures
            res.wf(),
            res@ == (TreeDatabaseView {
                versions: versions@,
                empty_subtree_hashes: empty_subtree_hashes@,
                multi_get_chunk_size,
            }),
    {
        TreeDatabase { versions, empty_subtree_hashes, multi_get_chunk_size }
    }

    /// Returns the number of keys that the database requests at once.
    pub fn multi_get_chunk_size(&self) -> (res: usize)
        ensures
            res == self@.multi_get_chunk_size,
    {
        self.multi_get_chunk_size
    }

    /// Sets the number of keys that the database requests at once.
    pub fn set_multi_get_chunk_size(&mut self, chunk_size: usize)
        requires
            old(self).wf(),
            chunk_size > 0,
        ensures
            final(self).wf(),
            final(self)@ == (TreeDatabaseView { multi_get_chunk_size: chunk_size, ..old(self)@ }),
    {
        self.multi_get_chunk_size = chunk_size;
    }

    /// Returns the number of versions.
    pub fn version_count(&self) -> (res: usize)
        ensures
            res == self@.versions.len(),
    {
        self.versions.len()
    }

    /// Returns the root of a version, if it is available.
    pub fn root(&self, version: usize) -> (res: Option<TreeRoot>)
        requires
            version < self@.versions.len(),
        ensures
            res == self@.versions[version as int],
    {
        self.versions[version]
    }

    /// Returns the root hashes of subtrees without leaves.
    pub fn empty_subtree_hashes(&self) -> (res: &EmptySubtreeHashes)
        requires
            self.wf(),
        ensures
            res.wf(),
            res@ == self@.empty_subtree_hashes,
    {
        &self.empty_subtree_hashes
    }

    /// Marks that the versions before the specified one have been removed.
    pub fn mark_pruned(&mut self, first_retained_version: u64)
        requires
            old(self).wf(),
        ensures
            final(self).wf(),
            final(self)@ == (TreeDatabaseView {
                versions: pruned(old(self)@.versions, first_retained_version as nat),
                ..old(self)@
            }),
    {
        let mut i: usize = 0;
        while i < self.versions.len() && (i as u64) < first_retained_version
            invariant
                i <= self.versions@.len(),
                i <= first_retained_version,
                self.versions@ == pruned(old(self).versions@, i as nat),
                self.empty_subtree_hashes == old(self).empty_subtree_hashes,
                self.multi_get_chunk_size == old(self).multi_get_chunk_size,
            decreases self.versions@.len() - i,
        {
            self.versions.set(i, None);
            i += 1;
            assert(self.versions@ =~= pruned(old(self).versions@, i as nat));
        }
        assert(self.versions@ =~= pruned(old(self).versions@, first_retained_version as nat));
    }

    /// Drops the versions after the retained ones, and adds new versions in their place.
    pub fn replace_versions(
        &mut self,
        retained_version_count: usize,
        new_versions: &mut Vec<Option<TreeRoot>>,
    )
        requires
            old(self).wf(),
            retained_version_count <= old(self)@.versions.len(),
        ensures
            final(self).wf(),
            final(self)@ == (TreeDatabaseView {
                versions: old(self)@.versions.take(retained_version_count as int) + old(
                    new_versions,
                )@,
                ..old(self)@
            }),
            final(new_versions)@ == Seq::<Option<TreeRoot>>::empty(),
    {
        self.versions.truncate(retained_version_count);
        self.versions.append(new_versions);
    }
}

/// Converts a number of tree versions to the number of the L1 batch that the tree expects next.
pub fn batch_number_after(version_count: u64) -> (res: L1BatchNumber)
    requires
        version_count <= u32::MAX,
    ensures
        res.0 == version_count,
{
    L1BatchNumber(version_count as u32)
}

/// A request to read leaves from a version of the tree.
#[derive(Debug, Clone, PartialEq, Eq)]
pub struct EntriesRequest {
    /// Version of the tree.
    pub version: u64,
    /// Keys of the leaves.
    pub keys: Vec<Key>,
}

/// Readonly handle to a tree. The handle does not see uncommitted changes to the tree, only the
/// saved ones.
///
/// The handle does not borrow the tree, and can be kept while the tree changes. Each read takes the
/// saved state as it is at the moment of the read.
#[derive(Debug, Copy, PartialEq, Eq)]
pub struct ZkSyncTreeReader {
    empty_tree_hash: ValueHash,
}

impl Clone for ZkSyncTreeReader {
    fn clone(&self) -> (res: Self)
        ensures
            res == *self,
    {
        *self
    }
}

impl View for ZkSyncTreeReader {
    type V = ValueHash;

    /// Root hash of a tree without leaves.
    closed spec fn view(&self) -> ValueHash {
        self.empty_tree_hash
    }
}

impl ZkSyncTreeReader {
    /// The root that the handle reads from the saved state.
    pub open spec fn saved_root(self, db: TreeDatabaseView) -> TreeRoot {
        latest_root(db.versions, self@)
    }

    /// Creates a handle to a tree with the specified hashes of empty subtrees.
    pub fn new(empty_subtree_hashes: &EmptySubtreeHashes) -> (res: Self)
        requires
            empty_subtree_hashes.wf(),
        ensures
            res@ == empty_subtree_hashes@[TREE_DEPTH as int],
    {
        ZkSyncTreeReader { empty_tree_hash: empty_subtree_hashes.empty_tree_hash() }
    }

    /// Returns the root of the latest saved version.
    fn latest_saved_root(&self, db: &TreeDatabase) -> (res: TreeRoot)
        ensures
            res == self.saved_root(db@),
    {
        let version_count = db.versions.len();
        if version_count > 0 {
            if let Some(root) = db.versions[version_count - 1] {
                return root;
            }
        }
        TreeRoot { root_hash: self.empty_tree_hash, leaf_count: 0 }
    }

    /// Returns the current root hash of the tree.
    pub fn root_hash(&self, db: &TreeDatabase) -> (res: ValueHash)
        ensures
            res == self.saved_root(db@).root_hash,
    {
        self.latest_saved_root(db).root_hash
    }

    /// Returns the number of the L1 batch that the tree expects next.
    pub fn next_l1_batch_number(&self, db: &TreeDatabase) -> (res: L1BatchNumber)
        requires
            db@.versions.len() <= u32::MAX,
        ensures
            res.0 == db@.versions.len(),
    {
        batch_number_after(db.versions.len() as u64)
    }

    /// Returns the number of leaves in the tree.
    pub fn leaf_count(&self, db: &TreeDatabase) -> (res: u64)
        ensures
            res == self.saved_root(db@).leaf_count,
    {
        self.latest_saved_root(db).leaf_count
    }

    /// Requests the leaves with the specified keys, together with Merkle proofs, from the version of
    /// the tree after the specified L1 batch. The entries are to be returned in the same order as
    /// requested.
    ///
    /// Returns an error if the version is missing, which is the case if it has not been saved or
    /// is no longer available.
    pub fn entries_with_proofs(
        &self,
        db: &TreeDatabase,
        l1_batch_number: L1BatchNumber,
        keys: &[Key],
    ) -> (res: Result<EntriesRequest, NoVersionError>)
        ensures
            match res {
                Ok(request) => {
                    &&& l1_batch_number.0 < db@.versions.len()
                    &&& db@.versions[l1_batch_number.0 as int] is Some
                    &&& request.version == l1_batch_number.0
                    &&& request.keys@ == keys@
                },
                Err(err) => {
                    &&& l1_batch_number.0 < db@.versions.len()
                        ==> db@.versions[l1_batch_number.0 as int] is None
                    &&& err.missing_version == l1_batch_number.0
                    &&& err.version_count == db@.versions.len()
                },
            },
    {
        let version = l1_batch_number.0 as u64;
        let version_count = db.versions.len() as u64;
        if version >= version_count || db.versions[version as usize].is_none() {
            return Err(NoVersionError { missing_version: version, version_count });
        }
        let mut requested: Vec<Key> = Vec::with_capacity(keys.len());
        let mut i: usize = 0;
        while i < keys.len()
            invariant
                i <= keys@.len(),
                requested@ == keys@.take(i as int),
            decreases keys@.len() - i,
        {
            requested.push(keys[i]);
            assert(requested@ =~= keys@.take(i + 1));
            i += 1;
        }
        assert(keys@.take(i as int) =~= keys@);
        Ok(EntriesRequest { version, keys: requested })
    }
}

} // verus!
