//! The fixed worker pool: round-robin job assignment, the in-flight counter
//! that backs the completion barrier, and the per-worker lifecycle.
//!
//! The pool itself runs as long-lived asynchronous tasks in the embedding
//! runtime; each worker owns a bounded inbound queue.  This module holds the
//! decisions of that machinery: which worker the next job is assigned to,
//! how the in-flight counter moves, when the barrier may open, what a worker
//! does with a received message.  The runtime performs the hand-offs and
//! reports each completion back.

use vstd::prelude::*;
use vstd::arithmetic::div_mod::{lemma_add_mod_noop, lemma_small_mod};

use crate::event::{EventRecord, EventRegistry, HandlerId};

verus! {

/// The unit of dispatch: a tick-handler invocation or an event to route.
#[derive(Clone, Copy, Debug)]
pub enum WorkerJob {
    /// Run the tick handler with this identity once for the current tick.
    Tick(HandlerId),
    /// Route this event to the handlers registered for its concrete type.
    Event(EventRecord),
}

/// One assignment made by the manager: which worker's inbound queue the job
/// is to be handed to.
#[derive(Clone, Copy, Debug)]
pub struct Dispatch {
    /// Index of the assigned worker, below the pool's worker count.
    pub target: usize,
    /// The job to hand to that worker.
    pub job: WorkerJob,
}

/// Per-worker lifecycle state.
#[derive(Clone, Copy, Debug, PartialEq, Eq, Structural)]
pub enum PWorkerStatus {
    /// Waiting on the inbound queue.
    Idle,
    /// Executing a job.
    Working,
    /// The inbound queue closed for good; the worker has terminated.  This
    /// state is terminal: no transition leaves it.
    Stopped,
}

impl PWorkerStatus {
    /// Whether this state is terminal.
    pub open spec fn is_terminal(self) -> bool {
        self is Stopped
    }

    /// The state a waiting worker moves to when its queue yields: a message
    /// means work; a closed queue stops the worker for good.
    pub fn on_receive(self, received: bool) -> (r: PWorkerStatus)
        requires
            self is Idle,
        ensures
            r == if received {
                PWorkerStatus::Working
            } else {
                PWorkerStatus::Stopped
            },
    {
        if received {
            PWorkerStatus::Working
        } else {
            PWorkerStatus::Stopped
        }
    }

    /// The state a worker returns to once its job is done.
    pub fn on_job_done(self) -> (r: PWorkerStatus)
        requires
            self is Working,
        ensures
            r is Idle,
    {
        PWorkerStatus::Idle
    }
}

/// What a worker does with a received job: run the tick handler, invoke the
/// handlers registered for the event's type, or report the event unrouted.
pub enum JobAction {
    /// Invoke this tick handler with the current tick.
    RunTick(HandlerId),
    /// Invoke each listed handler with the event; the list is exactly the
    /// handlers registered for the event's type, in registration order.
    RunEvent(EventRecord, Vec<HandlerId>),
    /// No handler is registered for the event's type: report it, drop it.
    Unrouted(EventRecord),
}

/// Decides a received job.  A tick job runs its handler; an event job goes
/// to exactly the handlers registered for the event's concrete type, and to
/// an unrouted report when there are none.
pub fn plan_job(job: WorkerJob, registry: &EventRegistry) -> (r: JobAction)
    ensures
        match job {
            WorkerJob::Tick(h) => r == JobAction::RunTick(h),
            WorkerJob::Event(e) => {
                if registry.handlers_of(e.type_code).len() == 0 {
                    r == JobAction::Unrouted(e)
                } else {
                    r matches JobAction::RunEvent(re, hs) && re == e && hs@ == registry.handlers_of(
                        e.type_code,
                    )
                }
            },
        },
{
    match job {
        WorkerJob::Tick(h) => JobAction::RunTick(h),
        WorkerJob::Event(e) => {
            let handlers = registry.handlers_for(e.type_code);
            if handlers.len() == 0 {
                JobAction::Unrouted(e)
            } else {
                JobAction::RunEvent(e, handlers)
            }
        },
    }
}

/// The worker the round-robin cursor assigns to the `k`-th of a run of jobs
/// dispatched while the cursor starts at `start`, in a pool of `w` workers.
pub open spec fn rr_target(start: int, k: int, w: int) -> int {
    (start + k) % w
}

/// Owns the fixed pool of workers and assigns each job to the next worker in
/// cyclic index order; the in-flight counter it keeps is the basis of the
/// completion barrier.
///
/// The runtime spawns one task per worker when it builds the pool around this
/// state, hands each `Dispatch` to the assigned worker's queue, and reports
/// every completion back through [`PWorkerManager::job_completed`].
pub struct PWorkerManager {
    /// Number of workers in the pool; fixed, at least one.
    workers_count: usize,
    /// Capacity of each worker's bounded inbound queue.
    buffer_size: usize,
    /// The round-robin cursor: index of the worker the next job goes to.
    idx: usize,
    /// Jobs dispatched and not yet completed.
    in_flight: usize,
}

impl PWorkerManager {
    /// Number of workers in the pool.
    pub closed spec fn workers_count_spec(self) -> usize {
        self.workers_count
    }

    /// Well-formed: a nonempty pool and a cursor inside it.
    pub open spec fn wf(self) -> bool {
        0 < self.workers_count_spec() && self.cursor() < self.workers_count_spec()
    }

    /// Capacity of each worker's inbound queue.
    pub closed spec fn buffer_size_spec(self) -> usize {
        self.buffer_size
    }

    /// The round-robin cursor.
    pub closed spec fn cursor(self) -> usize {
        self.idx
    }

    /// Jobs dispatched and not yet completed.
    pub closed spec fn in_flight_spec(self) -> usize {
        self.in_flight
    }

    /// A manager for a pool of `workers_count` workers, each with an inbound
    /// queue of capacity `buffer_size`; the cursor starts at the first
    /// worker and nothing is in flight.
    pub fn new(workers_count: usize, buffer_size: usize) -> (r: PWorkerManager)
        requires
            0 < workers_count,
        ensures
            r.wf(),
            r.workers_count_spec() == workers_count,
            r.buffer_size_spec() == buffer_size,
            r.cursor() == 0,
            r.in_flight_spec() == 0,
    {
        PWorkerManager { workers_count, buffer_size, idx: 0, in_flight: 0 }
    }

    /// Number of workers in the pool.
    pub fn workers_count(&self) -> (r: usize)
        ensures
            r == self.workers_count_spec(),
    {
        self.workers_count
    }

    /// Jobs dispatched and not yet completed.
    pub fn in_flight(&self) -> (r: usize)
        ensures
            r == self.in_flight_spec(),
    {
        self.in_flight
    }

    /// Assigns the job to the worker under the cursor, advances the cursor
    /// cyclically, and counts the job as in flight.  The runtime must hand
    /// the job to the assigned worker's queue, suspending while that queue
    /// is full.
    pub fn send(&mut self, job: WorkerJob) -> (d: Dispatch)
        requires
            old(self).wf(),
            old(self).in_flight_spec() < usize::MAX,
        ensures
            final(self).wf(),
            d.target == old(self).cursor(),
            d.target < old(self).workers_count_spec(),
            d.job == job,
            final(self).cursor() == (old(self).cursor() + 1) % (
            old(self).workers_count_spec() as int),
            final(self).in_flight_spec() == old(self).in_flight_spec() + 1,
            final(self).workers_count_spec() == old(self).workers_count_spec(),
            final(self).buffer_size_spec() == old(self).buffer_size_spec(),
    {
        let target = self.idx;
        self.idx = (self.idx + 1) % self.workers_count;
        self.in_flight = self.in_flight + 1;
        Dispatch { target, job }
    }

    /// Assigns each job of the batch to the next worker in round-robin
    /// order: with the cursor starting at `i`, the `k`-th job goes to worker
    /// `(i + k) mod workers_count`.  All jobs are counted in flight.
    pub fn send_batch(&mut self, jobs: &Vec<WorkerJob>) -> (ds: Vec<Dispatch>)
        requires
            old(self).wf(),
            old(self).in_flight_spec() + jobs@.len() <= usize::MAX,
        ensures
            final(self).wf(),
            ds@.len() == jobs@.len(),
            forall|k: int|
                0 <= k < jobs@.len() ==> (#[trigger] ds@[k]).target == rr_target(
                    old(self).cursor() as int,
                    k,
                    old(self).workers_count_spec() as int,
                ) && ds@[k].job == jobs@[k],
            final(self).cursor() == rr_target(
                old(self).cursor() as int,
                jobs@.len() as int,
                old(self).workers_count_spec() as int,
            ),
            final(self).in_flight_spec() == old(self).in_flight_spec() + jobs@.len(),
            final(self).workers_count_spec() == old(self).workers_count_spec(),
            final(self).buffer_size_spec() == old(self).buffer_size_spec(),
    {
        let ghost start = self.idx as int;
        let ghost w = self.workers_count as int;
        let mut ds: Vec<Dispatch> = Vec::new();
        let mut k: usize = 0;
        proof {
            assert(self.cursor() as int == (start + 0) % w) by {
                lemma_small_mod(start as nat, w as nat);
            }
        }
        while k < jobs.len()
            invariant
                self.wf(),
                k <= jobs@.len(),
                self.workers_count_spec() == w,
                self.buffer_size_spec() == old(self).buffer_size_spec(),
                0 < w,
                0 <= start < w,
                self.cursor() as int == rr_target(start, k as int, w),
                self.in_flight_spec() == old(self).in_flight_spec() + k,
                old(self).in_flight_spec() + jobs@.len() <= usize::MAX,
                ds@.len() == k,
                forall|j: int|
                    0 <= j < k ==> (#[trigger] ds@[j]).target == rr_target(start, j, w)
                        && ds@[j].job == jobs@[j],
            decreases jobs@.len() - k,
        {
            let d = self.send(jobs[k]);
            proof {
                lemma_add_mod_noop(start + k, 1int, w);
                if w == 1 {
                    assert(((start + k) % w + 1int) % w == (start + k + 1) % w);
                } else {
                    lemma_small_mod(1nat, w as nat);
                }
            }
            ds.push(d);
            k = k + 1;
        }
        ds
    }

    /// Records the completion of one dispatched job, success or controlled
    /// failure alike: the in-flight counter drops by exactly one.  The
    /// runtime must report every completion exactly once, so the counter is
    /// positive when it does.
    pub fn job_completed(&mut self)
        requires
            old(self).in_flight_spec() > 0,
        ensures
            final(self).in_flight_spec() == old(self).in_flight_spec() - 1,
            final(self).cursor() == old(self).cursor(),
            final(self).workers_count_spec() == old(self).workers_count_spec(),
            final(self).buffer_size_spec() == old(self).buffer_size_spec(),
            final(self).wf() == old(self).wf(),
    {
        self.in_flight = self.in_flight - 1;
    }

    /// Whether the completion barrier may open: true exactly when every
    /// dispatched job has completed.  The runtime's `wait_all` suspends,
    /// polling at a bounded interval, until this returns true.
    pub fn all_complete(&self) -> (r: bool)
        ensures
            r == (self.in_flight_spec() == 0),
    {
        self.in_flight == 0
    }
}

/// One step of the counter's history: a job dispatched or a job completed.
#[derive(Clone, Copy, Debug, PartialEq, Eq, Structural)]
pub enum FlightOp {
    /// A `send` counted one more job in flight.
    Dispatched,
    /// A worker reported one job done.
    Completed,
}

/// The in-flight counter after the given history, starting from `start`.
pub open spec fn in_flight_after(start: int, ops: Seq<FlightOp>) -> int
    decreases ops.len(),
{
    if ops.len() == 0 {
        start
    } else {
        match ops.last() {
            FlightOp::Dispatched => in_flight_after(start, ops.drop_last()) + 1,
            FlightOp::Completed => in_flight_after(start, ops.drop_last()) - 1,
        }
    }
}

/// How many of the given ops are `op`.
pub open spec fn count_ops(ops: Seq<FlightOp>, op: FlightOp) -> int
    decreases ops.len(),
{
    if ops.len() == 0 {
        0
    } else {
        count_ops(ops.drop_last(), op) + if ops.last() == op {
            1int
        } else {
            0int
        }
    }
}

/// A history a real run can produce: no prefix completes more jobs than
/// were dispatched before it.
pub open spec fn feasible_history(start: int, ops: Seq<FlightOp>) -> bool {
    forall|n: int|
        0 <= n <= ops.len() ==> count_ops(#[trigger] ops.take(n), FlightOp::Completed) <= start
            + count_ops(ops.take(n), FlightOp::Dispatched)
}

/// The in-flight invariant: over any history of dispatches and completions
/// the counter equals its start plus dispatches minus completions, so it is
/// zero — and the barrier opens — exactly when every dispatched job has
/// completed; over any history a real run can produce it never goes
/// negative.
pub proof fn lemma_in_flight_invariant(start: int, ops: Seq<FlightOp>)
    requires
        start >= 0,
    ensures
        in_flight_after(start, ops) == start + count_ops(ops, FlightOp::Dispatched) - count_ops(
            ops,
            FlightOp::Completed,
        ),
        in_flight_after(start, ops) == 0 <==> count_ops(ops, FlightOp::Completed) == start
            + count_ops(ops, FlightOp::Dispatched),
        feasible_history(start, ops) ==> in_flight_after(start, ops) >= 0,
    decreases ops.len(),
{
    if ops.len() == 0 {
    } else {
        lemma_in_flight_invariant(start, ops.drop_last());
        assert(ops.take(ops.len() as int) =~= ops);
        assert(ops.take(ops.len() - 1) =~= ops.drop_last());
        if feasible_history(start, ops) {
            assert(feasible_history(start, ops.drop_last())) by {
                assert forall|n: int| 0 <= n <= ops.drop_last().len() implies count_ops(
                    #[trigger] ops.drop_last().take(n),
                    FlightOp::Completed,
                ) <= start + count_ops(ops.drop_last().take(n), FlightOp::Dispatched) by {
                    assert(ops.drop_last().take(n) =~= ops.take(n));
                }
            }
        }
    }
}

/// The cursor after `k` single-job dispatches from `start` in a pool of `w`
/// workers, each advancing the cursor by one, cyclically.
pub open spec fn cursor_after(start: int, k: nat, w: int) -> int
    decreases k,
{
    if k == 0 {
        start
    } else {
        (cursor_after(start, (k - 1) as nat, w) + 1) % w
    }
}

/// Round-robin determinism: with the cursor starting at `start` in a pool of
/// `w` workers, the `k`-th dispatched job — each dispatch advancing the
/// cursor by one, cyclically — is assigned to worker `(start + k) mod w`.
pub proof fn lemma_round_robin(start: int, k: nat, w: int)
    requires
        0 < w,
        0 <= start < w,
    ensures
        cursor_after(start, k, w) == rr_target(start, k as int, w),
    decreases k,
{
    if k == 0 {
        lemma_small_mod(start as nat, w as nat);
    } else {
        lemma_round_robin(start, (k - 1) as nat, w);
        lemma_add_mod_noop(start + k - 1, 1int, w);
        if w == 1 {
            assert(((start + k - 1) % w + 1int) % w == (start + k) % w);
        } else {
            lemma_small_mod(1nat, w as nat);
        }
    }
}

} // verus!
