//! The bookkeeping of a worker pool: a queue of jobs, the number of
//! execution units and how many of them are busy. The units themselves,
//! threads or tasks, live outside; each asks the pool for a job, runs it and
//! reports back. The elastic pool grows under pressure and shrinks again,
//! never below its minimum.

use std::collections::VecDeque;
use vstd::prelude::*;

verus! {

/// A pool of execution units with its job queue.
pub struct ThreadPool<T> {
    pending: VecDeque<T>,
    running: usize,
    units: usize,
    num_thr: usize,
    submitted: Ghost<Seq<T>>,
    handed: Ghost<Seq<T>>,
    completed: Ghost<nat>,
}

impl<T> ThreadPool<T> {
    /// The jobs that wait, oldest first.
    pub closed spec fn pending(&self) -> Seq<T> {
        self.pending@
    }

    /// The number of units that run a job.
    pub closed spec fn running(&self) -> nat {
        self.running as nat
    }

    /// The number of units.
    pub closed spec fn units(&self) -> nat {
        self.units as nat
    }

    /// The number of units that the pool never goes below.
    pub closed spec fn min_units(&self) -> nat {
        self.num_thr as nat
    }

    /// Every job that was ever submitted, in the order of submission.
    pub closed spec fn submitted(&self) -> Seq<T> {
        self.submitted@
    }

    /// Every job that was ever handed to a unit, in the order of handing out.
    pub closed spec fn handed(&self) -> Seq<T> {
        self.handed@
    }

    /// The number of jobs that were reported as done.
    pub closed spec fn completed(&self) -> nat {
        self.completed@
    }

    /// The number of jobs that were submitted and are not done.
    pub open spec fn in_flight(&self) -> nat {
        self.pending().len() + self.running()
    }

    /// What holds of a pool at all times: the jobs handed out and the jobs
    /// that wait are, in this order, the jobs submitted, so that no job is
    /// lost and none is handed out twice; a job handed out runs or is done;
    /// no more jobs run than there are units; and there are never fewer units
    /// than the minimum, which is at least one.
    pub open spec fn wf(&self) -> bool {
        &&& self.submitted() == self.handed() + self.pending()
        &&& self.handed().len() == self.running() + self.completed()
        &&& self.running() <= self.units()
        &&& 1 <= self.min_units() <= self.units()
    }

    /// Whether nothing waits and nothing runs.
    pub open spec fn drained(&self) -> bool {
        self.pending().len() == 0 && self.running() == 0
    }

    /// Make a new pool of `num_thr` units, which is also its minimum.
    pub fn new(num_thr: usize) -> (pool: ThreadPool<T>)
        requires
            num_thr > 0,
        ensures
            pool.wf(),
            pool.units() == num_thr,
            pool.min_units() == num_thr,
            pool.drained(),
            pool.submitted() == Seq::<T>::empty(),
            pool.completed() == 0,
    {
        ThreadPool {
            pending: VecDeque::new(),
            running: 0,
            units: num_thr,
            num_thr,
            submitted: Ghost(Seq::empty()),
            handed: Ghost(Seq::empty()),
            completed: Ghost(0),
        }
    }

    /// The number of units.
    pub fn workers(&self) -> (n: usize)
        ensures
            n == self.units(),
    {
        self.units
    }

    /// The number of jobs that wait.
    pub fn queued(&self) -> (n: usize)
        ensures
            n == self.pending().len(),
    {
        self.pending.len()
    }

    /// Whether a unit is to be added once `f` has been submitted: the jobs in
    /// flight are then at least as many as the units.
    pub open spec fn grows_on_submit(&self) -> bool {
        self.in_flight() + 1 >= self.units() && self.units() < usize::MAX
    }

    /// Send a new job to an elastic pool. Returns whether the caller is to
    /// start one more unit, which the pool then counts already.
    pub fn add_static_job(&mut self, f: T) -> (spawn: bool)
        requires
            old(self).wf(),
        ensures
            final(self).wf(),
            spawn == old(self).grows_on_submit(),
            final(self).pending() == old(self).pending().push(f),
            final(self).submitted() == old(self).submitted().push(f),
            final(self).handed() == old(self).handed(),
            final(self).completed() == old(self).completed(),
            final(self).running() == old(self).running(),
            final(self).min_units() == old(self).min_units(),
            final(self).units() == old(self).units() + if spawn {
                1nat
            } else {
                0nat
            },
    {
        let free = self.units - self.running;
        let spawn = self.units < usize::MAX && (free == 0 || self.pending.len() >= free - 1);
        if spawn {
            self.add_worker();
        }
        self.add_const_job(f);
        spawn
    }

    /// Send a new job. The number of units stays as it is.
    pub fn add_const_job(&mut self, f: T)
        requires
            old(self).wf(),
        ensures
            final(self).wf(),
            final(self).pending() == old(self).pending().push(f),
            final(self).submitted() == old(self).submitted().push(f),
            final(self).handed() == old(self).handed(),
            final(self).completed() == old(self).completed(),
            final(self).running() == old(self).running(),
            final(self).units() == old(self).units(),
            final(self).min_units() == old(self).min_units(),
    {
        self.pending.push_back(f);
        proof {
            self.submitted@ = self.submitted@.push(f);
            assert(self.submitted@ =~= self.handed@ + self.pending@);
        }
    }

    /// Count one more unit, unless the count is at its limit.
    pub fn add_worker(&mut self)
        requires
            old(self).wf(),
            old(self).units() < usize::MAX,
        ensures
            final(self).wf(),
            final(self).units() == old(self).units() + 1,
            final(self).pending() == old(self).pending(),
            final(self).submitted() == old(self).submitted(),
            final(self).handed() == old(self).handed(),
            final(self).completed() == old(self).completed(),
            final(self).running() == old(self).running(),
            final(self).min_units() == old(self).min_units(),
    {
        self.units = self.units + 1;
    }

    /// Hands the oldest waiting job to a unit that asks for one. There is
    /// none to hand out where nothing waits, and where every unit is busy.
    pub fn take_job(&mut self) -> (job: Option<T>)
        requires
            old(self).wf(),
        ensures
            final(self).wf(),
            final(self).submitted() == old(self).submitted(),
            final(self).completed() == old(self).completed(),
            final(self).units() == old(self).units(),
            final(self).min_units() == old(self).min_units(),
            match job {
                Some(j) => {
                    &&& old(self).pending().len() > 0
                    &&& old(self).running() < old(self).units()
                    &&& j == old(self).pending()[0]
                    &&& final(self).pending() == old(self).pending().drop_first()
                    &&& final(self).handed() == old(self).handed().push(j)
                    &&& final(self).running() == old(self).running() + 1
                },
                None => {
                    &&& old(self).pending().len() == 0 || old(self).running() == old(self).units()
                    &&& final(self).pending() == old(self).pending()
                    &&& final(self).handed() == old(self).handed()
                    &&& final(self).running() == old(self).running()
                },
            },
    {
        if self.running >= self.units {
            return None;
        }
        let ghost before = self.pending@;
        match self.pending.pop_front() {
            Some(j) => {
                self.running = self.running + 1;
                proof {
                    self.handed@ = self.handed@.push(j);
                    assert(self.pending@ =~= before.drop_first());
                    assert(self.submitted@ =~= self.handed@ + self.pending@);
                }
                Some(j)
            },
            None => None,
        }
    }

    /// Whether a unit is to go once a job is done: the jobs in flight, and
    /// one to spare, are then fewer than the units, and the units more than
    /// the minimum.
    pub open spec fn shrinks_on_done(&self) -> bool {
        self.running() > 0 && self.in_flight() < self.units() && self.units() > self.min_units()
    }

    /// Takes in that a unit has run its job to the end, also where the job
    /// failed. Returns whether the unit is to retire, which the pool then
    /// counts already. Nothing changes where no job runs.
    pub fn job_done(&mut self) -> (retire: bool)
        requires
            old(self).wf(),
        ensures
            final(self).wf(),
            retire == old(self).shrinks_on_done(),
            final(self).pending() == old(self).pending(),
            final(self).submitted() == old(self).submitted(),
            final(self).handed() == old(self).handed(),
            final(self).min_units() == old(self).min_units(),
            final(self).running() == if old(self).running() > 0 {
                (old(self).running() - 1) as nat
            } else {
                0nat
            },
            final(self).completed() == old(self).completed() + if old(self).running() > 0 {
                1nat
            } else {
                0nat
            },
            final(self).units() == old(self).units() - if retire {
                1int
            } else {
                0int
            },
    {
        if self.running == 0 {
            return false;
        }
        self.running = self.running - 1;
        proof {
            self.completed@ = self.completed@ + 1;
        }
        let free = self.units - self.running;
        let retire = free > 1 && self.pending.len() < free - 1 && self.units > self.num_thr;
        if retire {
            self.units = self.units - 1;
        }
        retire
    }
}

impl<T> ThreadPool<T> {
    /// Runs the pool with a single unit at work until nothing waits: takes
    /// each waiting job in turn and reports it done. Returns the jobs in the
    /// order in which they were handed out, which is the order in which they
    /// were submitted.
    pub fn run_queued(&mut self) -> (ran: Vec<T>)
        requires
            old(self).wf(),
            old(self).running() == 0,
        ensures
            final(self).wf(),
            final(self).drained(),
            ran@ == old(self).pending(),
            final(self).submitted() == old(self).submitted(),
            final(self).handed() == old(self).submitted(),
            final(self).completed() == old(self).completed() + old(self).pending().len(),
            final(self).min_units() == old(self).min_units(),
    {
        let mut ran: Vec<T> = Vec::new();
        loop
            invariant_except_break
                self.wf(),
                self.running() == 0,
                self.submitted() == old(self).submitted(),
                self.min_units() == old(self).min_units(),
                ran@ + self.pending() == old(self).pending(),
                self.completed() == old(self).completed() + ran@.len(),
            ensures
                self.wf(),
                self.drained(),
                self.submitted() == old(self).submitted(),
                self.min_units() == old(self).min_units(),
                ran@ == old(self).pending(),
                self.completed() == old(self).completed() + ran@.len(),
            decreases self.pending().len(),
        {
            let ghost waiting = self.pending();
            let ghost done = ran@;
            match self.take_job() {
                Some(job) => {
                    self.job_done();
                    ran.push(job);
                    proof {
                        assert(ran@ + self.pending() =~= done + waiting);
                    }
                },
                None => {
                    proof {
                        assert(ran@ + self.pending() =~= ran@);
                    }
                    break ;
                },
            }
        }
        proof {
            lemma_drained_pool_ran_every_job(*self);
        }
        ran
    }
}

/// Once a pool is drained, every job that was submitted was handed out
/// exactly once, in the order of submission, and was run to its end.
pub proof fn lemma_drained_pool_ran_every_job<T>(pool: ThreadPool<T>)
    requires
        pool.wf(),
        pool.drained(),
    ensures
        pool.handed() == pool.submitted(),
        pool.completed() == pool.submitted().len(),
{
    assert(pool.handed() + pool.pending() =~= pool.handed());
}

} // verus!
