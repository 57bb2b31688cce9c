//! The scheduling state of the worker pool.
//!
//! The pool itself is a set of OS threads around one job queue; what this
//! module holds is every decision those threads make about the shared
//! counters: enqueueing a job, taking one up, finishing it with its
//! follow-on jobs, losing a worker to a panic, the running and shutdown
//! gates, and the quiescence test that `join` waits on. The callers drive
//! real threads through these transitions under their lock.

use vstd::prelude::*;

verus! {

/// The counters and gates of a pool of `max_thread_count` workers.
pub struct PoolState {
    /// Number of workers the pool keeps alive.
    pub max_thread_count: usize,
    /// Number of workers currently running a job.
    pub active_thread_count: usize,
    /// Number of jobs that ended in a panic.
    pub panic_thread_count: usize,
    /// Number of jobs waiting in the queue.
    pub queued_job_count: usize,
    /// The shutdown flag: set once, workers exit their loop.
    pub is_all_done: bool,
    /// The running gate: workers take jobs only while it is open.
    pub is_all_active: bool,
}

impl PoolState {
    /// The state of a fresh pool of `size` workers: nothing queued, nobody
    /// active, the running gate closed.
    pub fn new(size: usize) -> (r: PoolState)
        ensures
            r.max_thread_count == size,
            r.active_thread_count == 0,
            r.panic_thread_count == 0,
            r.queued_job_count == 0,
            !r.is_all_done,
            !r.is_all_active,
            r.model() == init_pool(),
    {
        PoolState {
            max_thread_count: size,
            active_thread_count: 0,
            panic_thread_count: 0,
            queued_job_count: 0,
            is_all_done: false,
            is_all_active: false,
        }
    }

    /// The abstract counter state.
    pub open spec fn model(self) -> PoolModel {
        PoolModel {
            active: self.active_thread_count as nat,
            panicked: self.panic_thread_count as nat,
            queued: self.queued_job_count as nat,
        }
    }

    /// Quiescence: nothing queued and nobody active. `join` returns exactly
    /// when this holds.
    pub open spec fn spec_is_idle(self) -> bool {
        self.queued_job_count == 0 && self.active_thread_count == 0
    }

    /// The quiescence test.
    pub fn is_idle(&self) -> (r: bool)
        ensures
            r == self.spec_is_idle(),
            r ==> self.queued_job_count == 0 && self.active_thread_count == 0,
    {
        self.queued_job_count == 0 && self.active_thread_count == 0
    }

    /// A job enters the queue.
    pub fn enqueue_job(&mut self)
        requires
            old(self).queued_job_count < usize::MAX,
        ensures
            *final(self) == (PoolState { queued_job_count: (old(self).queued_job_count + 1) as usize, ..*old(self) }),
            final(self).model() == pool_step(old(self).model(), PoolEvent::Enqueue),
    {
        self.queued_job_count = self.queued_job_count + 1;
    }

    /// A worker takes a job out of the queue and becomes active.
    pub fn begin_job(&mut self)
        requires
            old(self).queued_job_count > 0,
            old(self).active_thread_count < usize::MAX,
        ensures
            *final(self) == (PoolState {
                queued_job_count: (old(self).queued_job_count - 1) as usize,
                active_thread_count: (old(self).active_thread_count + 1) as usize,
                ..*old(self)
            }),
            final(self).model() == pool_step(old(self).model(), PoolEvent::Begin),
    {
        self.queued_job_count = self.queued_job_count - 1;
        self.active_thread_count = self.active_thread_count + 1;
    }

    /// A worker finishes its job normally; the job's follow-on units enter
    /// the queue.
    pub fn finish_job(&mut self, successors: usize)
        requires
            old(self).active_thread_count > 0,
            old(self).queued_job_count + successors <= usize::MAX,
        ensures
            *final(self) == (PoolState {
                queued_job_count: (old(self).queued_job_count + successors) as usize,
                active_thread_count: (old(self).active_thread_count - 1) as usize,
                ..*old(self)
            }),
            final(self).model() == pool_step(
                old(self).model(),
                PoolEvent::Finish { fanout: successors as nat },
            ),
    {
        self.queued_job_count = self.queued_job_count + successors;
        self.active_thread_count = self.active_thread_count - 1;
    }

    /// A worker dies in a panic while running a job: its sentinel steps it
    /// out of the active count and counts the panic; the pool spawns a
    /// replacement bound to the same id.
    pub fn job_panicked(&mut self)
        requires
            old(self).active_thread_count > 0,
            old(self).panic_thread_count < usize::MAX,
        ensures
            *final(self) == (PoolState {
                active_thread_count: (old(self).active_thread_count - 1) as usize,
                panic_thread_count: (old(self).panic_thread_count + 1) as usize,
                ..*old(self)
            }),
            final(self).model() == pool_step(old(self).model(), PoolEvent::PanicEnd),
    {
        self.active_thread_count = self.active_thread_count - 1;
        self.panic_thread_count = self.panic_thread_count + 1;
    }

    /// Open the running gate.
    pub fn awake_all(&mut self)
        ensures
            *final(self) == (PoolState { is_all_active: true, ..*old(self) }),
    {
        self.is_all_active = true;
    }

    /// Close the running gate.
    pub fn block_all(&mut self)
        ensures
            *final(self) == (PoolState { is_all_active: false, ..*old(self) }),
    {
        self.is_all_active = false;
    }

    /// Set the shutdown flag. Draining the queue of a stopped pool is the
    /// callers' work; a drained job leaves the queue without running.
    pub fn stop_all(&mut self)
        ensures
            *final(self) == (PoolState { is_all_done: true, ..*old(self) }),
    {
        self.is_all_done = true;
    }

    /// A queued job is discarded during an unconditional stop.
    pub fn drop_queued_job(&mut self)
        requires
            old(self).queued_job_count > 0,
        ensures
            *final(self) == (PoolState {
                queued_job_count: (old(self).queued_job_count - 1) as usize,
                ..*old(self)
            }),
    {
        self.queued_job_count = self.queued_job_count - 1;
    }

    /// Number of workers the pool keeps.
    pub fn max_thread_count(&self) -> (r: usize)
        ensures
            r == self.max_thread_count,
    {
        self.max_thread_count
    }

    /// Number of workers currently running a job.
    pub fn active_thread_count(&self) -> (r: usize)
        ensures
            r == self.active_thread_count,
    {
        self.active_thread_count
    }

    /// Number of jobs that ended in a panic.
    pub fn panic_thread_count(&self) -> (r: usize)
        ensures
            r == self.panic_thread_count,
    {
        self.panic_thread_count
    }

    /// Number of jobs waiting in the queue.
    pub fn queued_job_count(&self) -> (r: usize)
        ensures
            r == self.queued_job_count,
    {
        self.queued_job_count
    }
}

/// The abstract counter state of a pool.
pub struct PoolModel {
    pub active: nat,
    pub panicked: nat,
    pub queued: nat,
}

/// A fresh pool's counters.
pub open spec fn init_pool() -> PoolModel {
    PoolModel { active: 0, panicked: 0, queued: 0 }
}

/// One counter transition: a job enters the queue from outside (`Enqueue`),
/// a worker takes a job up (`Begin`), finishes it with its follow-on count,
/// which re-enters the queue (`Finish`), or dies in a panic (`PanicEnd`).
pub enum PoolEvent {
    Enqueue,
    Begin,
    Finish { fanout: nat },
    PanicEnd,
}

/// Whether an event can happen in state `m`.
pub open spec fn pool_enabled(m: PoolModel, e: PoolEvent) -> bool {
    match e {
        PoolEvent::Enqueue => true,
        PoolEvent::Begin => m.queued > 0,
        PoolEvent::Finish { .. } => m.active > 0,
        PoolEvent::PanicEnd => m.active > 0,
    }
}

/// Apply one event to the counters.
pub open spec fn pool_step(m: PoolModel, e: PoolEvent) -> PoolModel {
    match e {
        PoolEvent::Enqueue => PoolModel { queued: m.queued + 1, ..m },
        PoolEvent::Begin => PoolModel {
            queued: (m.queued - 1) as nat,
            active: m.active + 1,
            ..m
        },
        PoolEvent::Finish { fanout } => PoolModel {
            queued: m.queued + fanout,
            active: (m.active - 1) as nat,
            ..m
        },
        PoolEvent::PanicEnd => PoolModel {
            active: (m.active - 1) as nat,
            panicked: m.panicked + 1,
            ..m
        },
    }
}

/// Apply a sequence of events, front to back.
pub open spec fn pool_run(m: PoolModel, t: Seq<PoolEvent>) -> PoolModel
    decreases t.len(),
{
    if t.len() == 0 {
        m
    } else {
        pool_run(pool_step(m, t[0]), t.subrange(1, t.len() as int))
    }
}

/// Every event of the sequence is enabled when its turn comes.
pub open spec fn pool_trace_ok(m: PoolModel, t: Seq<PoolEvent>) -> bool
    decreases t.len(),
{
    t.len() == 0 || (pool_enabled(m, t[0]) && pool_trace_ok(pool_step(m, t[0]), t.subrange(1, t.len() as int)))
}

/// Number of `Begin` events.
pub open spec fn count_begins(t: Seq<PoolEvent>) -> nat
    decreases t.len(),
{
    if t.len() == 0 {
        0
    } else {
        (if t[0] is Begin {
            1nat
        } else {
            0nat
        }) + count_begins(t.subrange(1, t.len() as int))
    }
}

/// Number of `Finish` events.
pub open spec fn count_finishes(t: Seq<PoolEvent>) -> nat
    decreases t.len(),
{
    if t.len() == 0 {
        0
    } else {
        (if t[0] is Finish {
            1nat
        } else {
            0nat
        }) + count_finishes(t.subrange(1, t.len() as int))
    }
}

/// Number of `PanicEnd` events.
pub open spec fn count_panics(t: Seq<PoolEvent>) -> nat
    decreases t.len(),
{
    if t.len() == 0 {
        0
    } else {
        (if t[0] is PanicEnd {
            1nat
        } else {
            0nat
        }) + count_panics(t.subrange(1, t.len() as int))
    }
}

/// Number of queue entries: submissions from outside plus the follow-ons
/// of finished jobs.
pub open spec fn count_enqueued(t: Seq<PoolEvent>) -> nat
    decreases t.len(),
{
    if t.len() == 0 {
        0
    } else {
        (match t[0] {
            PoolEvent::Enqueue => 1nat,
            PoolEvent::Finish { fanout } => fanout,
            _ => 0nat,
        }) + count_enqueued(t.subrange(1, t.len() as int))
    }
}

/// The balance law of the counters: along any run, the active count moves
/// with begins against ends, the queue with entries against begins, and the
/// panic count counts exactly the panic ends.
pub proof fn lemma_pool_balance(m: PoolModel, t: Seq<PoolEvent>)
    requires
        pool_trace_ok(m, t),
    ensures
        pool_run(m, t).active + count_finishes(t) + count_panics(t) == m.active + count_begins(t),
        pool_run(m, t).queued + count_begins(t) == m.queued + count_enqueued(t),
        pool_run(m, t).panicked == m.panicked + count_panics(t),
    decreases t.len(),
{
    if t.len() > 0 {
        lemma_pool_balance(pool_step(m, t[0]), t.subrange(1, t.len() as int));
    }
}

/// Quiescence after a drained workload: start a pool, run any workload in
/// which every queued job was taken up and every taken-up job has ended.
/// Then `join` returns: nothing is queued and nobody is active.
pub proof fn lemma_drained_pool_quiesces(t: Seq<PoolEvent>)
    requires
        pool_trace_ok(init_pool(), t),
        count_begins(t) == count_enqueued(t),
        count_begins(t) == count_finishes(t) + count_panics(t),
    ensures
        pool_run(init_pool(), t).queued == 0,
        pool_run(init_pool(), t).active == 0,
{
    lemma_pool_balance(init_pool(), t);
}

/// Panic accounting: start a pool, run any workload in which every job
/// that was taken up has ended, normally or in a panic, and in which `k`
/// jobs panicked. Then the pool reports exactly `k` panics and no active
/// worker.
pub proof fn lemma_panics_counted(t: Seq<PoolEvent>, k: nat)
    requires
        pool_trace_ok(init_pool(), t),
        count_panics(t) == k,
        count_begins(t) == count_finishes(t) + count_panics(t),
    ensures
        pool_run(init_pool(), t).panicked == k,
        pool_run(init_pool(), t).active == 0,
{
    lemma_pool_balance(init_pool(), t);
}

/// Builds a pool: holds the requested worker count until the pool is
/// started.
pub struct ThreadPoolBuilder {
    pub pool_size: Option<usize>,
}

/// How many logical CPUs the machine offers.
///
/// Relies on `num_cpus::get`, whose documentation promises at least 1.
#[verifier::external_body]
fn hardware_parallelism() -> (n: usize)
    ensures
        n >= 1,
{
    num_cpus::get()
}

impl ThreadPoolBuilder {
    /// Sized builders carry a positive size.
    pub open spec fn wf(self) -> bool {
        self.pool_size matches Option::Some(s) ==> s > 0
    }

    /// A builder with no explicit size: the pool defaults to the machine's
    /// parallelism.
    pub fn new() -> (r: ThreadPoolBuilder)
        ensures
            r.wf(),
            r.pool_size is None,
    {
        ThreadPoolBuilder { pool_size: Option::None }
    }

    /// Request an explicit worker count.
    pub fn set_pool_size(self, size: usize) -> (r: ThreadPoolBuilder)
        requires
            size > 0,
        ensures
            r.wf(),
            r.pool_size == Option::Some(size),
    {
        ThreadPoolBuilder { pool_size: Option::Some(size) }
    }

    /// The worker count the pool will start with: the requested size, or
    /// the machine's parallelism when none was requested. Always positive.
    pub fn resolved_size(&self) -> (r: usize)
        requires
            self.wf(),
        ensures
            r >= 1,
            self.pool_size matches Option::Some(s) ==> r == s,
    {
        match self.pool_size {
            Option::Some(s) => s,
            Option::None => hardware_parallelism(),
        }
    }
}

} // verus!
