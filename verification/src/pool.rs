//! Bookkeeping types of the concurrent transfer pool: the work item a worker
//! receives and the counters the pool reports when it drains. The pool's
//! scheduling itself runs on an asynchronous runtime outside the library.

use vstd::prelude::*;
use crate::action::SyncAction;

verus! {

/// Work item accepted by the transfer pool.
#[derive(Debug)]
pub struct TransferJob {
    /// Position of the action in its plan.
    pub index: usize,
    /// The action to perform.
    pub action: SyncAction,
}

impl Clone for TransferJob {
    fn clone(&self) -> (r: Self)
        ensures
            r == *self,
    {
        TransferJob { index: self.index, action: self.action.clone() }
    }
}

/// Counters of one pool run.
#[derive(Debug, PartialEq, Eq)]
pub struct PoolStats {
    /// Number of workers the pool was built with.
    pub workers: usize,
    /// Jobs accepted into the upstream queue.
    pub enqueued: usize,
    /// Jobs handed to a worker.
    pub dispatched: usize,
    /// Jobs a worker finished.
    pub completed: usize,
    /// Finished jobs per worker.
    pub per_worker_completed: Vec<usize>,
}

impl Clone for PoolStats {
    fn clone(&self) -> (r: Self)
        ensures
            r.workers == self.workers,
            r.enqueued == self.enqueued,
            r.dispatched == self.dispatched,
            r.completed == self.completed,
            r.per_worker_completed@ == self.per_worker_completed@,
    {
        let mut per: Vec<usize> = Vec::new();
        let n = self.per_worker_completed.len();
        let mut i: usize = 0;
        while i < n
            invariant
                i <= n,
                n == self.per_worker_completed@.len(),
                per@.len() == i,
                forall|k: int| 0 <= k < i ==> per@[k] == self.per_worker_completed@[k],
            decreases n - i,
        {
            per.push(self.per_worker_completed[i]);
            i = i + 1;
        }
        proof {
            assert(per@ =~= self.per_worker_completed@);
        }
        PoolStats {
            workers: self.workers,
            enqueued: self.enqueued,
            dispatched: self.dispatched,
            completed: self.completed,
            per_worker_completed: per,
        }
    }
}

impl PoolStats {
    /// Fresh counters for a pool of `workers` workers.
    pub fn new(workers: usize) -> (r: Self)
        ensures
            r.workers == workers,
            r.enqueued == 0,
            r.dispatched == 0,
            r.completed == 0,
            r.per_worker_completed@.len() == workers,
            forall|k: int| 0 <= k < workers ==> r.per_worker_completed@[k] == 0,
    {
        let mut per: Vec<usize> = Vec::new();
        let mut i: usize = 0;
        while i < workers
            invariant
                i <= workers,
                per@.len() == i,
                forall|k: int| 0 <= k < i ==> per@[k] == 0,
            decreases workers - i,
        {
            per.push(0);
            i = i + 1;
        }
        PoolStats { workers, enqueued: 0, dispatched: 0, completed: 0, per_worker_completed: per }
    }
}

} // verus!
