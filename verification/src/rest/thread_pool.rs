//! The pool of a fixed number of execution units.

use vstd::prelude::*;

verus! {

/// A pool whose number of units does not change.
pub struct ThreadPool<T> {
    /// The bookkeeping of the units and of the jobs.
    pub pool: crate::thread_pool::ThreadPool<T>,
}

impl<T> ThreadPool<T> {
    /// Whether the pool stands as `new` made it: its units are its minimum.
    pub open spec fn wf(&self) -> bool {
        self.pool.wf() && self.pool.units() == self.pool.min_units()
    }

    /// Creating a new pool of `num_thr` units.
    pub fn new(num_thr: usize) -> (r: ThreadPool<T>)
        requires
            num_thr > 0,
        ensures
            r.wf(),
            r.pool.units() == num_thr,
            r.pool.drained(),
            r.pool.submitted() == Seq::<T>::empty(),
            r.pool.completed() == 0,
    {
        ThreadPool { pool: crate::thread_pool::ThreadPool::new(num_thr) }
    }

    /// Sending work to the units: `f` waits behind what waits already.
    pub fn add(&mut self, f: T)
        requires
            old(self).wf(),
        ensures
            final(self).wf(),
            final(self).pool.pending() == old(self).pool.pending().push(f),
            final(self).pool.submitted() == old(self).pool.submitted().push(f),
            final(self).pool.handed() == old(self).pool.handed(),
            final(self).pool.completed() == old(self).pool.completed(),
            final(self).pool.running() == old(self).pool.running(),
            final(self).pool.units() == old(self).pool.units(),
    {
        self.pool.add_const_job(f);
    }

    /// A pool with one unit for each of the jobs `vec_fn`, which all wait in
    /// it, in their order.
    pub fn launch(vec_fn: Vec<T>) -> (r: ThreadPool<T>)
        requires
            vec_fn.len() > 0,
        ensures
            r.wf(),
            r.pool.units() == vec_fn.len(),
            r.pool.pending() == vec_fn@,
            r.pool.submitted() == vec_fn@,
            r.pool.running() == 0,
            r.pool.completed() == 0,
    {
        let mut thread_pool = ThreadPool::new(vec_fn.len());
        let ghost all = vec_fn@;
        for job in it: vec_fn
            invariant
                it.seq() == all,
                thread_pool.wf(),
                thread_pool.pool.units() == all.len(),
                thread_pool.pool.running() == 0,
                thread_pool.pool.completed() == 0,
                thread_pool.pool.submitted() == all.take(it.index() as int),
                thread_pool.pool.pending() == all.take(it.index() as int),
        {
            proof {
                assert(all.take(it.index() as int).push(job) =~= all.take(it.index() + 1));
            }
            thread_pool.add(job);
        }
        proof {
            assert(all.take(all.len() as int) =~= all);
        }
        thread_pool
    }
}

/// A fixed pool that was given the jobs `jobs` and has run until it was
/// drained has handed out each of them exactly once and run each to its end,
/// however many units it has.
pub proof fn lemma_fixed_pool_runs_each_job_once<T>(pool: ThreadPool<T>, jobs: Seq<T>)
    requires
        pool.wf(),
        pool.pool.submitted() == jobs,
        pool.pool.drained(),
    ensures
        pool.pool.handed() == jobs,
        pool.pool.completed() == jobs.len(),
{
    crate::thread_pool::lemma_drained_pool_ran_every_job(pool.pool);
}

} // verus!
