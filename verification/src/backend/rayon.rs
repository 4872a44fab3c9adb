//! The strategy that hands the range to a pool of worker threads, which
//! divides and balances the work by itself.

use vstd::prelude::*;
use ::rayon::iter::{IntoParallelIterator, ParallelIterator};
use crate::backend::threads::{joined, merge_lists};
use crate::backend::{
    answers_search, lemma_passing_empty, lemma_passing_exact, numbered, passing, Backend,
    Predicate,
};
use crate::settings::Settings;

verus! {

/// The pool `rayon::ThreadPool`, carried about and never looked into.
#[verifier::external_type_specification]
#[verifier::external_body]
pub struct ExThreadPool(::rayon::ThreadPool);

/// The error `rayon::ThreadPoolBuildError`, carried about and never looked
/// into.
#[verifier::external_type_specification]
#[verifier::external_body]
pub struct ExThreadPoolBuildError(::rayon::ThreadPoolBuildError);

/// Calls `rayon::ThreadPoolBuilder::build` for a pool of `num_threads`
/// threads; with 0 the pool chooses their number. Nothing is promised of the
/// outcome: building fails where the threads cannot be started.
#[verifier::external_body]
pub(crate) fn build_pool(num_threads: usize) -> Result<
    ::rayon::ThreadPool,
    ::rayon::ThreadPoolBuildError,
> {
    ::rayon::ThreadPoolBuilder::new().num_threads(num_threads).build()
}

/// Runs `filter` and `count` of a parallel iterator over `low..high` inside
/// `pool`: the number of items for which the test gave `true`.
#[verifier::external_body]
pub(crate) fn pool_count<P: Predicate + Sync>(
    pool: &::rayon::ThreadPool,
    p: &P,
    low: u32,
    high: u32,
) -> (count: usize)
    ensures
        count == passing(p, low as int, high as int).len(),
{
    pool.install(|| (low..high).into_par_iter().filter(|x| p.test(*x)).count())
}

/// Runs `filter` and `collect` of a parallel iterator over `low..high` inside
/// `pool`: the items for which the test gave `true`, in the order of the
/// range.
#[verifier::external_body]
pub(crate) fn pool_collect<P: Predicate + Sync>(
    pool: &::rayon::ThreadPool,
    p: &P,
    low: u32,
    high: u32,
) -> (found: Vec<u32>)
    ensures
        found@ == passing(p, low as int, high as int),
{
    pool.install(|| (low..high).into_par_iter().filter(|x| p.test(*x)).collect())
}

/// Runs `find_any` of a parallel iterator over `low..high` inside `pool`:
/// some item for which the test gave `true`, not necessarily the first, or
/// `None` where it gave `true` for none.
#[verifier::external_body]
pub(crate) fn pool_find_any<P: Predicate + Sync>(
    pool: &::rayon::ThreadPool,
    p: &P,
    low: u32,
    high: u32,
) -> (answer: Option<u32>)
    ensures
        answers_search(p, low as int, high as int, answer),
{
    pool.install(|| (low..high).into_par_iter().find_any(|x| p.test(*x)))
}

/// The worker threads could not be started.
#[derive(Clone, Copy, Debug, PartialEq, Eq, Structural)]
pub struct SpawnError;

/// The strategy of the managed pool. The pool belongs to the backend: it is
/// built with it and serves its calls, and no other.
pub struct RayonBackend {
    pool: ::rayon::ThreadPool,
}

impl RayonBackend {
    /// The pool that serves this backend.
    pub closed spec fn workers(&self) -> ::rayon::ThreadPool {
        self.pool
    }

    /// The pool that serves this backend, for work of the caller's own.
    pub fn pool(&self) -> (pool: &::rayon::ThreadPool)
        ensures
            *pool == self.workers(),
    {
        &self.pool
    }

    /// A backend on a pool of `num_threads` threads. Whether the threads
    /// can be started is for the system to say; the failure is reported and
    /// not retried.
    pub fn new(num_threads: usize) -> (backend: Result<RayonBackend, SpawnError>) {
        RayonBackend::from_build(build_pool(num_threads))
    }

    /// A backend on the pool that was built, or the failure to build one.
    pub fn from_build(
        built: Result<::rayon::ThreadPool, ::rayon::ThreadPoolBuildError>,
    ) -> (backend: Result<RayonBackend, SpawnError>)
        ensures
            backend is Ok == built is Ok,
            backend matches Ok(b) ==> built matches Ok(pool) && b.workers() == pool,
    {
        match built {
            Ok(pool) => Ok(RayonBackend { pool }),
            Err(_) => Err(SpawnError),
        }
    }

    /// Counts the numbers of `[low, high)` that pass `p`.
    pub fn count<P: Predicate + Sync>(&self, p: &P, low: u32, high: u32) -> (count: u32)
        ensures
            count == passing(p, low as int, high as int).len(),
    {
        proof {
            if low <= high {
                lemma_passing_exact(p, low as int, high as int);
            } else {
                lemma_passing_empty(p, low as int, high as int);
            }
        }
        pool_count(&self.pool, p, low, high) as u32
    }

    /// Lists the numbers of `[low, high)` that pass `p`, in ascending order,
    /// each with its ordinal, counted from 1. The workers collect; the
    /// ordinals are given in one pass after them.
    pub fn enumerate<P: Predicate + Sync>(&self, p: &P, low: u32, high: u32) -> (listing: Vec<
        (u32, u32),
    >)
        ensures
            listing@ == numbered(passing(p, low as int, high as int), 1),
    {
        let mut lists: Vec<Vec<u32>> = Vec::new();
        lists.push(pool_collect(&self.pool, p, low, high));
        proof {
            if low <= high {
                lemma_passing_exact(p, low as int, high as int);
            } else {
                lemma_passing_empty(p, low as int, high as int);
            }
            let views = lists.deep_view();
            assert(joined(views.drop_last()) =~= Seq::<u32>::empty());
        }
        match merge_lists(&lists) {
            Some(listing) => listing,
            None => vstd::pervasive::unreached(),
        }
    }

    /// Finds a number of `[low, high)` that passes `p`: whichever a worker
    /// comes upon first.
    pub fn search<P: Predicate + Sync>(&self, p: &P, low: u32, high: u32) -> (answer: Option<u32>)
        ensures
            answers_search(p, low as int, high as int, answer),
    {
        pool_find_any(&self.pool, p, low, high)
    }
}

impl Backend for RayonBackend {
    fn run_count(&self, settings: &Settings) -> (count: u32) {
        self.count(&settings.checksum(), settings.bottom, settings.top)
    }

    fn run_list(&self, settings: &Settings) -> (listing: Vec<(u32, u32)>) {
        self.enumerate(&settings.checksum(), settings.bottom, settings.top)
    }

    fn run_search(&self, settings: &Settings, hash: Box<[u8; 20]>) -> (answer: Option<u32>) {
        self.search(&settings.preimage(*hash), settings.bottom, settings.top)
    }
}

} // verus!
