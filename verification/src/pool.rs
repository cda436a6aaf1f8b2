//! The worker pool's core: one shared FIFO queue of jobs, a count of
//! pending termination signals, and a count of live workers, with the
//! whole dispatch discipline as verified transitions.
//!
//! Threads themselves cannot be taken inside the verified world, so the
//! pool is split along the seam the design asks for anyway: every
//! decision — what a worker takes next, when it may exit, what shutdown
//! queues — lives here with a contract, and the embedding shell merely
//! spawns OS threads that lock the pool, call [`WorkerPool::take_next`],
//! and perform the returned action. Whatever schedule those threads
//! follow, each dispatch is one verified transition.

use vstd::prelude::*;
use vstd::rwlock::{RwLock, RwLockPredicate};
use std::sync::Arc;

verus! {

/// A deferred, zero-argument, fire-and-forget unit of work. A job is
/// taken over by exactly one worker and consumed by running it, so it
/// cannot run twice; it reports nothing to the pool, and whatever it
/// fails at is its own business to observe.
pub trait Job: Sized + Send {
    fn run(self);
}

/// What one visit to the queue decides: run this job, exit the worker
/// loop, or find nothing to do yet.
pub enum Taken<J> {
    Work(J),
    Exit,
    Idle,
}

/// Why pool construction failed: a pool of no workers could never run a
/// job, so a zero size is refused outright and no worker is accounted.
pub struct ConstructionError;

/// The worker pool's shared state: pending jobs in arrival order,
/// termination signals not yet taken, and workers still live. The pool
/// runs in three phases: running (no signals queued), draining
/// (signals queued, jobs still leaving first), and terminated (every
/// worker has taken its signal and exited).
pub struct WorkerPool<J> {
    pub jobs: Vec<J>,
    pub terminators: usize,
    pub workers: usize,
}

impl<J> WorkerPool<J> {
    /// The jobs still queued, in arrival order.
    pub open spec fn pending_jobs(&self) -> Seq<J> {
        self.jobs@
    }

    /// The termination signals queued and not yet taken.
    pub open spec fn pending_signals(&self) -> nat {
        self.terminators as nat
    }

    /// The workers that have not exited.
    pub open spec fn live_workers(&self) -> nat {
        self.workers as nat
    }

    /// Never more signals pending than workers live: each signal retires
    /// exactly one worker.
    pub open spec fn wf(&self) -> bool {
        self.terminators <= self.workers
    }

    /// A pool of exactly `size` workers over a fresh, empty queue; a
    /// size of zero is refused outright, with no worker accounted and
    /// none for the shell to spawn.
    pub fn new(size: usize) -> (r: Result<WorkerPool<J>, ConstructionError>)
        ensures
            match r {
                Ok(p) => {
                    &&& size > 0
                    &&& p.wf()
                    &&& p.live_workers() == size
                    &&& p.pending_jobs().len() == 0
                    &&& p.pending_signals() == 0
                },
                Err(_) => size == 0,
            },
    {
        if size == 0 {
            return Err(ConstructionError);
        }
        Ok(WorkerPool { jobs: Vec::new(), terminators: 0, workers: size })
    }

    /// Enqueues `job` at the back of the queue and returns at once; the
    /// queue is unbounded, so submission never waits. Workers take jobs
    /// from the front, so everything queued earlier leaves first.
    pub fn execute(&mut self, job: J)
        requires
            old(self).wf(),
        ensures
            final(self).wf(),
            final(self).pending_jobs() == old(self).pending_jobs().push(job),
            final(self).pending_signals() == old(self).pending_signals(),
            final(self).live_workers() == old(self).live_workers(),
    {
        self.jobs.push(job);
    }

    /// Queues exactly one termination signal per live worker. The queue
    /// is FIFO and [`take_next`] hands signals out only once no job is
    /// left, so every job queued before this call is dispatched first;
    /// the shell then joins each worker as it exits, and
    /// [`lemma_shutdown_retires_all`] shows none is left behind.
    pub fn shutdown(&mut self)
        requires
            old(self).wf(),
        ensures
            final(self).wf(),
            final(self).pending_jobs() == old(self).pending_jobs(),
            final(self).pending_signals() == old(self).live_workers(),
            final(self).live_workers() == old(self).live_workers(),
    {
        self.terminators = self.workers;
    }

    /// The whole dispatch discipline, as one step: the front job when
    /// any is pending; a termination signal — retiring the calling
    /// worker — only when no job is; nothing otherwise. So no worker
    /// ever exits while a job is still queued, and jobs leave strictly
    /// in arrival order, each exactly once.
    pub fn take_next(&mut self) -> (t: Taken<J>)
        requires
            old(self).wf(),
        ensures
            final(self).wf(),
            old(self).pending_jobs().len() > 0 ==> {
                &&& t matches Taken::Work(j) && j == old(self).pending_jobs()[0]
                &&& final(self).pending_jobs() == old(self).pending_jobs().skip(1)
                &&& final(self).pending_signals() == old(self).pending_signals()
                &&& final(self).live_workers() == old(self).live_workers()
            },
            old(self).pending_jobs().len() == 0 && old(self).pending_signals() > 0 ==> {
                &&& t is Exit
                &&& final(self).pending_jobs() == old(self).pending_jobs()
                &&& final(self).pending_signals() == old(self).pending_signals() - 1
                &&& final(self).live_workers() == old(self).live_workers() - 1
            },
            old(self).pending_jobs().len() == 0 && old(self).pending_signals() == 0 ==> {
                &&& t is Idle
                &&& final(self).pending_jobs() == old(self).pending_jobs()
                &&& final(self).pending_signals() == old(self).pending_signals()
                &&& final(self).live_workers() == old(self).live_workers()
            },
    {
        if self.jobs.len() > 0 {
            let job = self.jobs.remove(0);
            proof {
                assert(self.jobs@ =~= old(self).jobs@.skip(1));
            }
            Taken::Work(job)
        } else if self.terminators > 0 {
            self.terminators = self.terminators - 1;
            self.workers = self.workers - 1;
            Taken::Exit
        } else {
            Taken::Idle
        }
    }
}

/// The trace of dispatch decisions a queue of `jobs` and `terminators`
/// yields when visited to exhaustion: the sequence of [`Taken`] steps
/// [`WorkerPool::take_next`] walks, one entry per visit that takes
/// something.
pub open spec fn dispatch_sequence<J>(jobs: Seq<J>, terminators: nat) -> Seq<Taken<J>>
    decreases jobs.len() + terminators,
{
    if jobs.len() > 0 {
        seq![Taken::Work(jobs[0])] + dispatch_sequence(jobs.skip(1), terminators)
    } else if terminators > 0 {
        seq![Taken::Exit::<J>] + dispatch_sequence(jobs, (terminators - 1) as nat)
    } else {
        Seq::empty()
    }
}

/// Law: draining a queue of `k` jobs followed by any number of
/// termination signals dispatches exactly those `k` jobs, one entry
/// each, in arrival order, and every exit comes strictly after the last
/// job. No job queued before shutdown is dropped, run twice, or
/// overtaken by a termination signal.
pub proof fn lemma_fifo_drain<J>(jobs: Seq<J>, terminators: nat)
    ensures
        dispatch_sequence(jobs, terminators).len() == jobs.len() + terminators,
        forall|i: int|
            0 <= i < jobs.len() ==> dispatch_sequence(jobs, terminators)[i] == Taken::Work(
                jobs[i],
            ),
        forall|i: int|
            jobs.len() <= i < jobs.len() + terminators ==> dispatch_sequence(jobs, terminators)[i]
                is Exit,
    decreases jobs.len() + terminators,
{
    let d = dispatch_sequence(jobs, terminators);
    if jobs.len() > 0 {
        lemma_fifo_drain(jobs.skip(1), terminators);
        let rest = dispatch_sequence(jobs.skip(1), terminators);
        assert(d == seq![Taken::Work(jobs[0])] + rest);
        assert forall|i: int| 0 <= i < jobs.len() implies d[i] == Taken::Work(jobs[i]) by {
            if i > 0 {
                assert(rest[i - 1] == Taken::Work(jobs.skip(1)[i - 1]));
                assert(jobs.skip(1)[i - 1] == jobs[i]);
            }
        }
        assert forall|i: int| jobs.len() <= i < jobs.len() + terminators implies d[i] is Exit by {
            assert(rest[i - 1] is Exit);
        }
    } else if terminators > 0 {
        lemma_fifo_drain(jobs, (terminators - 1) as nat);
    }
}

/// Law: once [`WorkerPool::shutdown`] has queued one signal per live
/// worker, dispatching the queue to exhaustion yields exactly that many
/// exits — each retiring one worker — so every worker is retired and
/// none is abandoned.
pub proof fn lemma_shutdown_retires_all<J>(p: WorkerPool<J>)
    requires
        p.wf(),
        p.pending_signals() == p.live_workers(),
    ensures
        dispatch_sequence(p.pending_jobs(), p.pending_signals()).len() == p.pending_jobs().len()
            + p.live_workers(),
        forall|i: int|
            p.pending_jobs().len() <= i < p.pending_jobs().len() + p.live_workers()
                ==> dispatch_sequence(p.pending_jobs(), p.pending_signals())[i] is Exit,
{
    lemma_fifo_drain(p.pending_jobs(), p.pending_signals());
}

/// The lock invariant of a shared counter: any value.
pub struct CounterPred;

impl RwLockPredicate<u64> for CounterPred {
    open spec fn inv(self, v: u64) -> bool {
        true
    }
}

/// A counter shared between jobs, the classic exercise for a pool: each
/// [`CountingJob`] adds one under the counter's lock, so no two
/// increments race and the total after the drain shows every job ran.
pub struct SharedCounter {
    cell: Arc<RwLock<u64, CounterPred>>,
}

/// A job that adds one to its shared counter (stopping at the type's
/// top, which no realistic run reaches).
pub struct CountingJob {
    cell: Arc<RwLock<u64, CounterPred>>,
}

/// Relies on `Arc::clone`: the new handle refers to the same value.
#[verifier::external_body]
fn arc_clone<T>(a: &Arc<T>) -> (r: Arc<T>)
    ensures
        r == *a,
{
    a.clone()
}

impl SharedCounter {
    /// A fresh counter at zero.
    pub fn new() -> SharedCounter {
        SharedCounter { cell: Arc::new(RwLock::new(0, Ghost(CounterPred))) }
    }

    /// A job that will add one to this counter when some worker runs it.
    pub fn job(&self) -> CountingJob {
        CountingJob { cell: arc_clone(&self.cell) }
    }

    /// The count as of now.
    pub fn get(&self) -> u64 {
        let handle = self.cell.acquire_read();
        let value = *handle.borrow();
        handle.release_read();
        value
    }
}

impl Job for CountingJob {
    fn run(self) {
        let (value, handle) = self.cell.acquire_write();
        let next = if value < u64::MAX {
            value + 1
        } else {
            value
        };
        handle.release_write(next);
    }
}

} // verus!
