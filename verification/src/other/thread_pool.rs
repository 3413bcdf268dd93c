//! A pool of a fixed number of execution units, of at least one.

use vstd::prelude::*;

verus! {

/// System thread pool.
pub struct ThreadPool<T> {
    /// The bookkeeping of the units and of the jobs.
    pub pool: crate::thread_pool::ThreadPool<T>,
}

impl<T> ThreadPool<T> {
    /// Make a new pool of `num_thr` units.
    pub fn new(num_thr: usize) -> (r: ThreadPool<T>)
        requires
            num_thr > 0,
        ensures
            r.pool.wf(),
            r.pool.units() == num_thr,
            r.pool.min_units() == num_thr,
            r.pool.drained(),
            r.pool.submitted() == Seq::<T>::empty(),
            r.pool.completed() == 0,
    {
        ThreadPool { pool: crate::thread_pool::ThreadPool::new(num_thr) }
    }

    /// Send a new job: `f` waits behind what waits already.
    pub fn add_job(&mut self, f: T)
        requires
            old(self).pool.wf(),
        ensures
            final(self).pool.wf(),
            final(self).pool.pending() == old(self).pool.pending().push(f),
            final(self).pool.submitted() == old(self).pool.submitted().push(f),
            final(self).pool.handed() == old(self).pool.handed(),
            final(self).pool.completed() == old(self).pool.completed(),
            final(self).pool.running() == old(self).pool.running(),
            final(self).pool.units() == old(self).pool.units(),
            final(self).pool.min_units() == old(self).pool.min_units(),
    {
        self.pool.add_const_job(f);
    }
}

} // verus!
