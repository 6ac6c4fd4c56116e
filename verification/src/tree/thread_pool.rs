//! Dedicated thread pool for the computations of the tree.

use rayon::{ThreadPool, ThreadPoolBuildError, ThreadPoolBuilder};
use vstd::prelude::*;

use crate::decimal::{append_decimal, decimal};

verus! {

/// A `rayon` thread pool.
#[verifier::external_type_specification]
#[verifier::external_body]
pub struct ExThreadPool(rayon::ThreadPool);

/// The error of `rayon` on building a thread pool.
#[verifier::external_type_specification]
#[verifier::external_body]
pub struct ExThreadPoolBuildError(rayon::ThreadPoolBuildError);

/// Number of worker threads in a pool, fixed when the pool is built.
pub uninterp spec fn pool_thread_count(pool: ThreadPool) -> nat;

/// Name that the worker thread of a pool with the specified index is started with.
pub uninterp spec fn pool_thread_name(pool: ThreadPool, index: nat) -> Seq<char>;

/// The largest number of worker threads in a pool: `rayon` keeps the count in 16 bits on 64-bit
/// platforms and in 8 bits on others.
pub open spec fn max_pool_threads() -> nat {
    if usize::BITS == 64 {
        0xffff
    } else {
        0xff
    }
}

/// Number of worker threads that a request for a positive number of threads gives: larger requests
/// are cut to the maximum.
pub open spec fn granted_threads(thread_count: usize) -> nat {
    if thread_count <= max_pool_threads() {
        thread_count as nat
    } else {
        max_pool_threads()
    }
}

/// A thread pool could not be initialized.
#[derive(Debug, Clone, Copy, PartialEq, Eq)]
pub struct ThreadPoolInitError {
    /// Number of threads requested; 0 stands for the default number.
    pub thread_count: usize,
}

/// Name of the worker thread with the specified index.
pub open spec fn worker_name(index: nat) -> Seq<char> {
    "new-merkle-tree-"@ + decimal(index)
}

/// Returns the name of the worker thread with the specified index.
pub fn worker_thread_name(index: usize) -> (res: String)
    ensures
        res@ == worker_name(index as nat),
{
    let mut name = String::new();
    name.append("new-merkle-tree-");
    append_decimal(&mut name, index as u64);
    name
}

/// Whether a pool is one that a request for `thread_count` threads gives. If the default number of
/// threads is requested, there is at least one. Threads are named by their indexes.
pub open spec fn is_pool_of(pool: ThreadPool, thread_count: usize) -> bool {
    &&& 1 <= pool_thread_count(pool) <= max_pool_threads()
    &&& thread_count > 0 ==> pool_thread_count(pool) == granted_threads(thread_count)
    &&& forall|index: nat|
        index < pool_thread_count(pool) ==> #[trigger] pool_thread_name(pool, index)
            == worker_name(index)
}

/// Builds a thread pool with `rayon::ThreadPoolBuilder::build()`, naming its threads by
/// [`worker_thread_name`].
///
/// If the pool is built, it has at least one thread, and no more than the maximum that `rayon`
/// supports. If a positive number of threads is requested, the pool has that many threads, cut to the
/// maximum. Each thread is started under the name that [`worker_thread_name`] returns for its index.
/// Whether the pool is built, and how many threads it has if the default number is requested, depends
/// on the environment and the machine and is left open, as is what the operating system shows of the
/// names.
#[verifier::external_body]
fn build_thread_pool(thread_count: usize) -> (res: Result<ThreadPool, ThreadPoolBuildError>)
    ensures
        res matches Ok(pool) ==> 1 <= pool_thread_count(pool) <= max_pool_threads(),
        res matches Ok(pool) ==> thread_count > 0 ==> pool_thread_count(pool) == granted_threads(
            thread_count,
        ),
        res matches Ok(pool) ==> forall|index: nat|
            index < pool_thread_count(pool) ==> #[trigger] pool_thread_name(pool, index)
                == worker_name(index),
{
    ThreadPoolBuilder::new()
        .thread_name(|idx| worker_thread_name(idx))
        .num_threads(thread_count)
        .build()
}

/// Creates a thread pool with the specified number of threads. If `thread_count` is 0, the default
/// number of threads is used.
///
/// Fails if the operating system does not give the threads.
pub fn create_thread_pool(thread_count: usize) -> (res: Result<ThreadPool, ThreadPoolInitError>)
    ensures
        match res {
            Ok(pool) => is_pool_of(pool, thread_count),
            Err(err) => err.thread_count == thread_count,
        },
{
    match build_thread_pool(thread_count) {
        Ok(pool) => Ok(pool),
        Err(_) => Err(ThreadPoolInitError { thread_count }),
    }
}

} // verus!
