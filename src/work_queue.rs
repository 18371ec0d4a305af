//! The bookkeeping of a fixed-size worker pool: one FIFO queue of jobs,
//! the number of jobs in flight, and whether submissions are still taken.
//! The threads that run the jobs hold this behind a lock.
use std::collections::VecDeque;
use vstd::prelude::*;

verus! {

/// Jobs waiting for a worker, in submission order, and the count of those
/// that a worker has taken and not yet finished.
pub struct JobQueue<T> {
    queue: VecDeque<T>,
    workers: u8,
    active: u8,
    closed: bool,
    /// Every job ever submitted, in order.
    submitted: Ghost<Seq<T>>,
    /// Every job ever handed to a worker, in order.
    started: Ghost<Seq<T>>,
    /// How many handed-out jobs have finished.
    finished: Ghost<nat>,
}

impl<T> JobQueue<T> {
    /// Jobs not yet handed to a worker, oldest first.
    pub closed spec fn pending(&self) -> Seq<T> {
        self.queue@
    }

    pub closed spec fn spec_workers(&self) -> nat {
        self.workers as nat
    }

    /// Jobs handed out and not yet finished.
    pub closed spec fn spec_active(&self) -> nat {
        self.active as nat
    }

    pub closed spec fn spec_closed(&self) -> bool {
        self.closed
    }

    pub closed spec fn submitted(&self) -> Seq<T> {
        self.submitted@
    }

    pub closed spec fn started(&self) -> Seq<T> {
        self.started@
    }

    pub closed spec fn finished(&self) -> nat {
        self.finished@
    }

    /// Every submitted job is either started or still queued, in
    /// submission order; no more jobs run than there are workers.
    pub closed spec fn wf(&self) -> bool {
        &&& self.workers > 0
        &&& self.active <= self.workers
        &&& self.submitted@ == self.started@ + self.queue@
        &&& self.finished@ + self.active == self.started@.len()
    }

    /// An open queue for `workers` workers, with nothing submitted.
    pub fn new(workers: u8) -> (q: JobQueue<T>)
        requires
            workers > 0,
        ensures
            q.wf(),
            q.spec_workers() == workers,
            q.pending() == Seq::<T>::empty(),
            q.submitted() == Seq::<T>::empty(),
            q.spec_active() == 0,
            !q.spec_closed(),
    {
        let q = JobQueue {
            queue: VecDeque::new(),
            workers,
            active: 0,
            closed: false,
            submitted: Ghost(Seq::empty()),
            started: Ghost(Seq::empty()),
            finished: Ghost(0),
        };
        assert(q.started@ + q.queue@ =~= Seq::<T>::empty());
        q
    }

    /// The fixed number of workers.
    pub fn workers(&self) -> (r: u8)
        ensures
            r == self.spec_workers(),
    {
        self.workers
    }

    /// How many jobs are running now.
    pub fn active(&self) -> (r: u8)
        ensures
            r == self.spec_active(),
    {
        self.active
    }

    /// How many jobs wait for a worker.
    pub fn queued(&self) -> (r: usize)
        ensures
            r == self.pending().len(),
    {
        self.queue.len()
    }

    /// Whether new jobs are still accepted.
    pub fn is_closed(&self) -> (r: bool)
        ensures
            r == self.spec_closed(),
    {
        self.closed
    }

    /// Queues a job behind all the others. The pool must still be open.
    pub fn submit(&mut self, job: T)
        requires
            old(self).wf(),
            !old(self).spec_closed(),
        ensures
            final(self).wf(),
            final(self).pending() == old(self).pending().push(job),
            final(self).submitted() == old(self).submitted().push(job),
            final(self).started() == old(self).started(),
            final(self).finished() == old(self).finished(),
            final(self).spec_active() == old(self).spec_active(),
            final(self).spec_workers() == old(self).spec_workers(),
            !final(self).spec_closed(),
    {
        self.submitted = Ghost(self.submitted@.push(job));
        self.queue.push_back(job);
        assert(self.started@ + self.queue@ =~= self.submitted@);
    }

    /// Hands the oldest queued job to a worker, when there is one and a
    /// worker is free; else `None`, and nothing changes.
    pub fn take(&mut self) -> (r: Option<T>)
        requires
            old(self).wf(),
        ensures
            final(self).wf(),
            final(self).submitted() == old(self).submitted(),
            final(self).finished() == old(self).finished(),
            final(self).spec_workers() == old(self).spec_workers(),
            final(self).spec_closed() == old(self).spec_closed(),
            old(self).pending().len() == 0 || old(self).spec_active() == old(self).spec_workers()
                ==> r is None && *final(self) == *old(self),
            old(self).pending().len() > 0 && old(self).spec_active() < old(self).spec_workers()
                ==> r == Some(old(self).pending()[0]) && final(self).pending() == old(
                self,
            ).pending().drop_first() && final(self).started() == old(self).started().push(
                old(self).pending()[0],
            ) && final(self).spec_active() == old(self).spec_active() + 1,
    {
        if self.queue.len() == 0 || self.active >= self.workers {
            return None;
        }
        let ghost before = self.queue@;
        match self.queue.pop_front() {
            Some(job) => {
                self.started = Ghost(self.started@.push(job));
                self.active = self.active + 1;
                assert(self.started@ + self.queue@ =~= self.submitted@) by {
                    assert(before == seq![job] + self.queue@);
                }
                Some(job)
            },
            None => None,
        }
    }

    /// Records that a worker finished the job it took.
    pub fn finish(&mut self)
        requires
            old(self).wf(),
            old(self).spec_active() > 0,
        ensures
            final(self).wf(),
            final(self).spec_active() == old(self).spec_active() - 1,
            final(self).finished() == old(self).finished() + 1,
            final(self).pending() == old(self).pending(),
            final(self).submitted() == old(self).submitted(),
            final(self).started() == old(self).started(),
            final(self).spec_workers() == old(self).spec_workers(),
            final(self).spec_closed() == old(self).spec_closed(),
    {
        self.active = self.active - 1;
        self.finished = Ghost(self.finished@ + 1);
    }

    /// Stops taking submissions; queued and running jobs still complete.
    pub fn close(&mut self)
        requires
            old(self).wf(),
        ensures
            final(self).wf(),
            final(self).spec_closed(),
            final(self).pending() == old(self).pending(),
            final(self).submitted() == old(self).submitted(),
            final(self).started() == old(self).started(),
            final(self).finished() == old(self).finished(),
            final(self).spec_active() == old(self).spec_active(),
            final(self).spec_workers() == old(self).spec_workers(),
    {
        self.closed = true;
    }

    /// No job waits and none runs.
    pub fn is_idle(&self) -> (r: bool)
        ensures
            r == (self.pending().len() == 0 && self.spec_active() == 0),
    {
        self.queue.len() == 0 && self.active == 0
    }

    /// A worker may leave its loop: the pool is closed and no job waits.
    pub fn should_exit(&self) -> (r: bool)
        ensures
            r == (self.spec_closed() && self.pending().len() == 0),
    {
        self.closed && self.queue.len() == 0
    }
}

/// Jobs go to workers in submission order, each at most once: what was
/// started is exactly the oldest part of what was submitted. Once the pool
/// is idle, every submitted job has been started and has finished.
pub proof fn lemma_each_job_runs_once<T>(q: &JobQueue<T>)
    requires
        q.wf(),
    ensures
        q.started() == q.submitted().subrange(0, q.started().len() as int),
        q.submitted().len() == q.started().len() + q.pending().len(),
        q.pending().len() == 0 && q.spec_active() == 0 ==> q.started() == q.submitted()
            && q.finished() == q.submitted().len(),
{
    assert(q.submitted@.subrange(0, q.started@.len() as int) =~= q.started@);
    if q.queue@.len() == 0 {
        assert(q.submitted@ =~= q.started@);
    }
}

/// With a single worker, at most one job runs at a time, and jobs start in
/// the order they were submitted: a log written by each job as it starts
/// lists them in submission order.
pub proof fn lemma_single_worker_keeps_order<T>(q: &JobQueue<T>)
    requires
        q.wf(),
        q.spec_workers() == 1,
    ensures
        q.spec_active() <= 1,
        q.started() == q.submitted().subrange(0, q.started().len() as int),
{
    lemma_each_job_runs_once(q);
}

} // verus!
