//! The shared server state and the fixed-rate game loop.
//!
//! The loop advances a shared world at a fixed logical rate.  Once per tick
//! it dispatches every registered tick handler, phase by phase in a fixed
//! order with a completion barrier between phases, then drains the event
//! queue and dispatches one job per drained event behind a second barrier,
//! and only then advances the tick counter by exactly one.
//!
//! The loop itself is an asynchronous task of the embedding runtime; what
//! stands here is every decision it takes: when an iteration is due, which
//! jobs it dispatches in which order, when the barrier may open, what counts
//! as a soft-deadline overrun, and how the counters move.  Wall-clock
//! instants reach this module as plain nanosecond timestamps.

use vstd::prelude::*;

use crate::event::{EventRecord, HandlerId};
use crate::worker::{Dispatch, PWorkerManager, WorkerJob, rr_target};

verus! {

/// Target number of ticks per second.
pub type TPS = u8;

/// One discrete simulation step, identified by a monotonically increasing
/// counter.
pub type Tick = u128;

/// Capacity of each worker's bounded inbound queue, sized generously
/// relative to the worst-case per-tick job count.
pub const WORKER_QUEUE_CAPACITY: usize = 2048;

/// Nanoseconds of one tick at the given rate: one second divided by the
/// rate, truncated, exactly as dividing a one-second duration would do.
pub fn tick_duration_nanos(tps: TPS) -> (r: u64)
    requires
        tps > 0,
    ensures
        r == 1_000_000_000u64 / tps as u64,
{
    1_000_000_000u64 / (tps as u64)
}

/// Bookkeeping mutated only by the loop and the save system: a tick mirror,
/// the timestamp of the last iteration start, and the tick and timestamp of
/// the last successful save, if any.  Timestamps are nanoseconds of the
/// embedding runtime's clock.
pub struct ServerStats {
    /// Mirror of the tick counter.
    pub tick: Tick,
    /// Timestamp of the last iteration start.
    pub last_tick: u128,
    /// Tick and timestamp of the last successful save; absent until the
    /// first save.
    pub last_save: Option<(Tick, u128)>,
}

impl Default for ServerStats {
    /// Fresh stats: tick zero, epoch timestamp, no save yet.
    fn default() -> (r: ServerStats)
        ensures
            r.tick == 0,
            r.last_tick == 0,
            r.last_save is None,
    {
        ServerStats { tick: 0, last_tick: 0, last_save: None }
    }
}

/// The shared state container all components operate on: the tick counter,
/// the event queue, and the run's stats.  Created once at startup; the
/// embedding runtime shares it, each field behind its own lock, among the
/// loop and every worker, and calls these methods under the matching lock.
/// The world handle lives beside it in the runtime: the engine never
/// inspects world contents, only hands the handle through to handlers.
pub struct PtWarServer {
    /// The current tick; incremented exactly once per completed iteration.
    pub tick: Tick,
    /// Events produced by handlers this tick, in arrival order; drained
    /// completely once per tick.
    pub events_queue: Vec<EventRecord>,
    /// Bookkeeping for the save system and the loop.
    pub stats: ServerStats,
}

impl PtWarServer {
    /// Fresh server state: tick zero, no queued events, fresh stats.
    pub fn new() -> (r: PtWarServer)
        ensures
            r.tick == 0,
            r.events_queue@.len() == 0,
            r.stats.tick == 0,
            r.stats.last_tick == 0,
            r.stats.last_save is None,
    {
        PtWarServer { tick: 0, events_queue: Vec::new(), stats: ServerStats::default() }
    }

    /// The current tick.  Stable for the whole of an iteration: the counter
    /// moves only after both of the iteration's barriers have opened.
    pub fn tick(&self) -> (r: Tick)
        ensures
            r == self.tick,
    {
        self.tick
    }

    /// Advances the tick counter by exactly one; everything else is
    /// untouched.  Called under exclusive access, once per completed
    /// iteration.
    pub fn next_tick(&mut self)
        requires
            old(self).tick < Tick::MAX,
        ensures
            final(self).tick == old(self).tick + 1,
            final(self).events_queue == old(self).events_queue,
            final(self).stats == old(self).stats,
    {
        self.tick = self.tick + 1;
    }

    /// Appends one event to the queue; everything else is untouched.
    /// Called under exclusive access to the queue, from any worker.
    pub fn add_event(&mut self, event: EventRecord)
        ensures
            final(self).events_queue@ == old(self).events_queue@.push(event),
            final(self).tick == old(self).tick,
            final(self).stats == old(self).stats,
    {
        self.events_queue.push(event);
    }

    /// Empties the queue and hands back everything it held, in arrival
    /// order, in one step under exclusive access: ownership of the events
    /// passes to the caller and the queue is left empty.
    pub fn drain_events(&mut self) -> (drained: Vec<EventRecord>)
        ensures
            drained@ == old(self).events_queue@,
            final(self).events_queue@.len() == 0,
            final(self).tick == old(self).tick,
            final(self).stats == old(self).stats,
    {
        let mut drained: Vec<EventRecord> = Vec::new();
        core::mem::swap(&mut drained, &mut self.events_queue);
        drained
    }

    /// Records a successful save of the current tick at the given
    /// timestamp; the persistence mechanism itself is an external
    /// collaborator.
    pub fn save(&mut self, now: u128)
        ensures
            final(self).stats.last_save == Some((old(self).tick, now)),
            final(self).stats.tick == old(self).stats.tick,
            final(self).stats.last_tick == old(self).stats.last_tick,
            final(self).tick == old(self).tick,
            final(self).events_queue == old(self).events_queue,
    {
        let tick = self.tick;
        self.stats.last_save = Some((tick, now));
    }
}

/// A fixed-order execution bucket for tick handlers.  The total order is
/// fixed: `First`, `Second`, `Third`, `Last`.
#[derive(Debug, Clone, Copy, PartialEq, Eq, Structural, Hash)]
pub enum SOrder {
    /// Runs before every other phase.
    First,
    /// Runs after `First`.
    Second,
    /// Runs after `Second`.
    Third,
    /// Runs after every other phase.
    Last,
}

/// How many phases there are.
pub const PHASE_COUNT: usize = 4;

impl SOrder {
    /// This phase's position in the fixed order.
    pub open spec fn index_spec(self) -> int {
        match self {
            SOrder::First => 0,
            SOrder::Second => 1,
            SOrder::Third => 2,
            SOrder::Last => 3,
        }
    }

    /// This phase's position in the fixed order.
    pub fn index(self) -> (r: usize)
        ensures
            r == self.index_spec(),
    {
        match self {
            SOrder::First => 0,
            SOrder::Second => 1,
            SOrder::Third => 2,
            SOrder::Last => 3,
        }
    }

    /// The phase at the given position of the fixed order.
    pub open spec fn phase_of_index(k: int) -> SOrder {
        if k == 0 {
            SOrder::First
        } else if k == 1 {
            SOrder::Second
        } else if k == 2 {
            SOrder::Third
        } else {
            SOrder::Last
        }
    }

    /// All phases, in their fixed execution order.
    pub fn order() -> (r: Vec<SOrder>)
        ensures
            r@ =~= seq![SOrder::First, SOrder::Second, SOrder::Third, SOrder::Last],
    {
        vec![SOrder::First, SOrder::Second, SOrder::Third, SOrder::Last]
    }
}

/// One step of a tick's dispatch plan: hand one handler's job to the pool,
/// or hold at the completion barrier until everything dispatched so far has
/// completed.
#[derive(Debug, Clone, Copy, PartialEq, Eq, Structural)]
pub enum ScheduleStep {
    /// Dispatch a tick job for this handler of this phase.
    Job(SOrder, HandlerId),
    /// Block until the in-flight counter returns to zero.
    Barrier,
}

/// Where phase `k`'s segment — its jobs followed by one barrier — starts in
/// the tick plan.
pub open spec fn seg_start(systems: Seq<Seq<HandlerId>>, k: int) -> int
    decreases k,
{
    if k <= 0 {
        0
    } else {
        seg_start(systems, k - 1) + systems[k - 1].len() + 1
    }
}

/// The step at position `i` of the tick plan: within phase `k`'s segment,
/// its jobs in registration order, then one barrier.
pub open spec fn step_at(systems: Seq<Seq<HandlerId>>, i: int) -> ScheduleStep {
    if i < seg_start(systems, 0) + systems[0].len() {
        ScheduleStep::Job(SOrder::First, systems[0][i - seg_start(systems, 0)])
    } else if i == seg_start(systems, 0) + systems[0].len() {
        ScheduleStep::Barrier
    } else if i < seg_start(systems, 1) + systems[1].len() {
        ScheduleStep::Job(SOrder::Second, systems[1][i - seg_start(systems, 1)])
    } else if i == seg_start(systems, 1) + systems[1].len() {
        ScheduleStep::Barrier
    } else if i < seg_start(systems, 2) + systems[2].len() {
        ScheduleStep::Job(SOrder::Third, systems[2][i - seg_start(systems, 2)])
    } else if i == seg_start(systems, 2) + systems[2].len() {
        ScheduleStep::Barrier
    } else if i < seg_start(systems, 3) + systems[3].len() {
        ScheduleStep::Job(SOrder::Last, systems[3][i - seg_start(systems, 3)])
    } else {
        ScheduleStep::Barrier
    }
}

/// The whole tick plan for the given registry: for each phase in fixed
/// order, one job per handler of that phase in registration order, then one
/// barrier.
pub open spec fn tick_steps_spec(systems: Seq<Seq<HandlerId>>) -> Seq<ScheduleStep> {
    Seq::new(seg_start(systems, 4) as nat, |i: int| step_at(systems, i))
}

/// The four segment starts, spelled out.
proof fn lemma_seg_starts(systems: Seq<Seq<HandlerId>>)
    ensures
        seg_start(systems, 0) == 0,
        seg_start(systems, 1) == systems[0].len() + 1,
        seg_start(systems, 2) == systems[0].len() + systems[1].len() + 2,
        seg_start(systems, 3) == systems[0].len() + systems[1].len() + systems[2].len() + 3,
        seg_start(systems, 4) == systems[0].len() + systems[1].len() + systems[2].len()
            + systems[3].len() + 4,
{
    assert(seg_start(systems, 0) == 0);
    assert(seg_start(systems, 1) == systems[0].len() + 1);
    assert(seg_start(systems, 2) == systems[0].len() + systems[1].len() + 2);
    assert(seg_start(systems, 3) == systems[0].len() + systems[1].len() + systems[2].len() + 3);
    assert(seg_start(systems, 4) == systems[0].len() + systems[1].len() + systems[2].len()
        + systems[3].len() + 4);
}

/// A job step of phase `p` can only stand inside phase `p`'s segment of the
/// tick plan.
proof fn lemma_job_in_segment(systems: Seq<Seq<HandlerId>>, i: int, p: SOrder, h: HandlerId)
    requires
        0 <= i < tick_steps_spec(systems).len(),
        tick_steps_spec(systems)[i] == ScheduleStep::Job(p, h),
    ensures
        seg_start(systems, p.index_spec()) <= i < seg_start(systems, p.index_spec())
            + systems[p.index_spec()].len(),
{
    lemma_seg_starts(systems);
}

/// The barrier that closes phase `p`'s segment.
proof fn lemma_barrier_at(systems: Seq<Seq<HandlerId>>, k: int)
    requires
        0 <= k < 4,
    ensures
        0 <= seg_start(systems, k) + systems[k].len() < tick_steps_spec(systems).len(),
        tick_steps_spec(systems)[seg_start(systems, k) + systems[k].len()]
            == ScheduleStep::Barrier,
{
    lemma_seg_starts(systems);
}

/// Phase ordering: in any tick plan, every job of an earlier phase stands
/// before every job of a later phase, and a barrier stands strictly between
/// them — so, with the barrier holding until every dispatched job has
/// completed, every job of the earlier phase completes before any job of
/// the later phase is dispatched.
pub proof fn lemma_phase_ordering(
    systems: Seq<Seq<HandlerId>>,
    i: int,
    j: int,
    p: SOrder,
    q: SOrder,
    hi: HandlerId,
    hj: HandlerId,
)
    requires
        0 <= i < tick_steps_spec(systems).len(),
        0 <= j < tick_steps_spec(systems).len(),
        tick_steps_spec(systems)[i] == ScheduleStep::Job(p, hi),
        tick_steps_spec(systems)[j] == ScheduleStep::Job(q, hj),
        p.index_spec() < q.index_spec(),
    ensures
        i < j,
        exists|b: int|
            i < b < j && tick_steps_spec(systems)[b] == ScheduleStep::Barrier,
{
    lemma_seg_starts(systems);
    lemma_job_in_segment(systems, i, p, hi);
    lemma_job_in_segment(systems, j, q, hj);
    let b = seg_start(systems, p.index_spec()) + systems[p.index_spec()].len();
    lemma_barrier_at(systems, p.index_spec());
    assert(i < b < j && tick_steps_spec(systems)[b] == ScheduleStep::Barrier);
}

/// The jobs carried by a list of dispatches, in dispatch order.
pub open spec fn dispatched_jobs(ds: Seq<Dispatch>) -> Seq<WorkerJob> {
    ds.map_values(|d: Dispatch| d.job)
}

/// Same-tick event visibility: every event drained from the queue during an
/// iteration — each event a handler enqueued during that same tick included
/// — has a dispatch among that iteration's event jobs; none is deferred to
/// a later tick.
pub proof fn lemma_same_tick_visibility(queue: Seq<EventRecord>, ds: Seq<Dispatch>)
    requires
        ds.len() == queue.len(),
        forall|k: int| 0 <= k < queue.len() ==> (#[trigger] ds[k]).job == WorkerJob::Event(queue[k]),
    ensures
        forall|k: int|
            0 <= k < queue.len() ==> dispatched_jobs(ds).contains(
                WorkerJob::Event(#[trigger] queue[k]),
            ),
{
    assert forall|k: int| 0 <= k < queue.len() implies dispatched_jobs(ds).contains(
        WorkerJob::Event(#[trigger] queue[k]),
    ) by {
        assert(dispatched_jobs(ds)[k] == WorkerJob::Event(queue[k]));
    }
}

/// The tick counter after `n` completed iterations from `t0`, each
/// advancing it by exactly one, as [`GameLoop::finish_iteration`] does.
pub open spec fn tick_after_iterations(t0: int, n: nat) -> int
    decreases n,
{
    if n == 0 {
        t0
    } else {
        tick_after_iterations(t0, (n - 1) as nat) + 1
    }
}

/// Tick monotonicity: after `n` iterations the counter reads exactly
/// `t0 + n` — no two iterations observe the same tick and none is skipped.
pub proof fn lemma_tick_monotonic(t0: int, n: nat)
    ensures
        tick_after_iterations(t0, n) == t0 + n,
        forall|m: nat| m < n ==> tick_after_iterations(t0, m) < tick_after_iterations(t0, n),
    decreases n,
{
    if n > 0 {
        lemma_tick_monotonic(t0, (n - 1) as nat);
        assert forall|m: nat| m < n implies tick_after_iterations(t0, m) < tick_after_iterations(
            t0,
            n,
        ) by {
            lemma_tick_monotonic(t0, m);
        }
    }
}

/// The fixed-rate scheduler: holds the phase-ordered registry of tick
/// handlers and the worker-pool manager, and decides each iteration of the
/// loop.  The embedding runtime drives it: it asks when the next iteration
/// is due and suspends until then, walks the tick plan — handing each job
/// to the assigned worker and holding at each barrier until the pool
/// reports everything complete — drains the server's event queue, dispatches
/// the drained events behind a second barrier, and closes the iteration.
pub struct GameLoop {
    /// Target ticks per second.
    tps: TPS,
    /// The per-tick budget in nanoseconds: one second divided by `tps`.
    tick_duration: u64,
    /// Timestamp of the last iteration start, in nanoseconds.
    last_tick: u128,
    /// Number of workers in the pool.
    workers_count: usize,
    /// The worker-pool manager.
    manager: PWorkerManager,
    /// One ordered handler list per phase, indexed by the phase's position;
    /// insertion order is preserved, never re-sorted.
    systems: Vec<Vec<HandlerId>>,
}

impl GameLoop {
    /// Target ticks per second.
    pub closed spec fn tps_spec(self) -> TPS {
        self.tps
    }

    /// The per-tick budget in nanoseconds.
    pub closed spec fn tick_duration_spec(self) -> u64 {
        self.tick_duration
    }

    /// Timestamp of the last iteration start.
    pub closed spec fn last_tick_spec(self) -> u128 {
        self.last_tick
    }

    /// Number of workers in the pool.
    pub closed spec fn workers_count_spec(self) -> usize {
        self.workers_count
    }

    /// The worker-pool manager's state.
    pub closed spec fn manager_spec(self) -> PWorkerManager {
        self.manager
    }

    /// The registry: one handler list per phase, by phase position.
    pub closed spec fn systems_view(self) -> Seq<Seq<HandlerId>> {
        self.systems@.map_values(|v: Vec<HandlerId>| v@)
    }

    /// Well-formed: one handler list per phase and a well-formed manager.
    pub open spec fn wf(self) -> bool {
        self.systems_view().len() == PHASE_COUNT && self.manager_spec().wf()
            && self.manager_spec().workers_count_spec() == self.workers_count_spec()
    }

    /// Builds the loop and the server state it will drive: a worker manager
    /// sized to `workers_count` with the fixed queue capacity, an empty
    /// phase registry, and fresh server state.
    pub fn new(workers_count: usize, tps: TPS) -> (r: (GameLoop, PtWarServer))
        requires
            0 < workers_count,
            0 < tps,
        ensures
            r.0.wf(),
            r.0.tps_spec() == tps,
            r.0.tick_duration_spec() == 1_000_000_000u64 / tps as u64,
            r.0.last_tick_spec() == 0,
            r.0.workers_count_spec() == workers_count,
            r.0.manager_spec().workers_count_spec() == workers_count,
            r.0.manager_spec().buffer_size_spec() == WORKER_QUEUE_CAPACITY,
            r.0.manager_spec().cursor() == 0,
            r.0.manager_spec().in_flight_spec() == 0,
            forall|k: int| 0 <= k < PHASE_COUNT ==> (#[trigger] r.0.systems_view()[k]).len() == 0,
            r.1.tick == 0,
            r.1.events_queue@.len() == 0,
            r.1.stats.last_save is None,
    {
        let server = PtWarServer::new();
        let manager = PWorkerManager::new(workers_count, WORKER_QUEUE_CAPACITY);
        let tick_duration = tick_duration_nanos(tps);
        let mut systems: Vec<Vec<HandlerId>> = Vec::new();
        systems.push(Vec::new());
        systems.push(Vec::new());
        systems.push(Vec::new());
        systems.push(Vec::new());
        let gloop = GameLoop { tps, tick_duration, last_tick: 0, workers_count, manager, systems };
        (gloop, server)
    }

    /// The per-tick budget in nanoseconds.
    pub fn tick_duration(&self) -> (r: u64)
        ensures
            r == self.tick_duration_spec(),
    {
        self.tick_duration
    }

    /// Target ticks per second.
    pub fn tps(&self) -> (r: TPS)
        ensures
            r == self.tps_spec(),
    {
        self.tps
    }

    /// Number of workers in the pool.
    pub fn workers_count(&self) -> (r: usize)
        ensures
            r == self.workers_count_spec(),
    {
        self.workers_count
    }

    /// Appends a handler to the given phase's ordered list; every other
    /// phase's list, and everything else, is untouched.
    pub fn add_system(&mut self, order: SOrder, handler: HandlerId)
        requires
            old(self).wf(),
        ensures
            final(self).wf(),
            final(self).systems_view()[order.index_spec()] == old(self).systems_view()[
                order.index_spec()].push(handler),
            forall|k: int|
                0 <= k < PHASE_COUNT && k != order.index_spec() ==> final(self).systems_view()[k]
                    == old(self).systems_view()[k],
            final(self).tps_spec() == old(self).tps_spec(),
            final(self).tick_duration_spec() == old(self).tick_duration_spec(),
            final(self).last_tick_spec() == old(self).last_tick_spec(),
            final(self).workers_count_spec() == old(self).workers_count_spec(),
            final(self).manager_spec() == old(self).manager_spec(),
    {
        let k = order.index();
        let ghost pre = self.systems_view();
        self.systems[k].push(handler);
        proof {
            assert(self.systems_view() =~= pre.update(
                order.index_spec(),
                pre[order.index_spec()].push(handler),
            ));
        }
    }

    /// Whether the next iteration is due: at least one tick budget has
    /// elapsed since the last iteration start.
    pub fn iteration_due(&self, now: u128) -> (r: bool)
        requires
            now >= self.last_tick_spec(),
        ensures
            r == (now - self.last_tick_spec() >= self.tick_duration_spec()),
    {
        now - self.last_tick >= self.tick_duration as u128
    }

    /// How long the runtime should suspend until the next iteration is due:
    /// the unelapsed remainder of the tick budget, zero once due.  The
    /// scheduling task sleeps for this span instead of polling.
    pub fn nanos_until_due(&self, now: u128) -> (r: u64)
        requires
            now >= self.last_tick_spec(),
        ensures
            r as int == if now - self.last_tick_spec() >= self.tick_duration_spec() {
                0
            } else {
                self.tick_duration_spec() - (now - self.last_tick_spec())
            },
    {
        let elapsed = now - self.last_tick;
        if elapsed >= self.tick_duration as u128 {
            0
        } else {
            self.tick_duration - (elapsed as u64)
        }
    }

    /// The tick plan of one iteration: for each phase in fixed order, one
    /// job per registered handler of that phase in registration order, then
    /// one barrier.  The runtime dispatches each job through
    /// [`GameLoop::send`] and holds at each barrier until
    /// [`GameLoop::all_complete`].
    pub fn tick_steps(&self) -> (r: Vec<ScheduleStep>)
        requires
            self.wf(),
        ensures
            r@ == tick_steps_spec(self.systems_view()),
    {
        let ghost sys = self.systems_view();
        proof {
            lemma_seg_starts(sys);
        }
        let mut r: Vec<ScheduleStep> = Vec::new();
        let phases = SOrder::order();
        let mut p: usize = 0;
        while p < PHASE_COUNT
            invariant
                self.wf(),
                sys == self.systems_view(),
                p <= PHASE_COUNT,
                phases@ =~= seq![SOrder::First, SOrder::Second, SOrder::Third, SOrder::Last],
                r@.len() == seg_start(sys, p as int),
                forall|i: int| 0 <= i < r@.len() ==> r@[i] == step_at(sys, i),
            decreases PHASE_COUNT - p,
        {
            proof {
                lemma_seg_starts(sys);
            }
            let phase = phases[p];
            let handlers_len = self.systems[p].len();
            let mut t: usize = 0;
            while t < handlers_len
                invariant
                    self.wf(),
                    sys == self.systems_view(),
                    p < PHASE_COUNT,
                    phases@ =~= seq![SOrder::First, SOrder::Second, SOrder::Third, SOrder::Last],
                    phase == SOrder::phase_of_index(p as int),
                    t <= handlers_len,
                    handlers_len == sys[p as int].len(),
                    r@.len() == seg_start(sys, p as int) + t,
                    forall|i: int| 0 <= i < r@.len() ==> r@[i] == step_at(sys, i),
                decreases handlers_len - t,
            {
                proof {
                    lemma_seg_starts(sys);
                }
                r.push(ScheduleStep::Job(phase, self.systems[p][t]));
                t = t + 1;
            }
            r.push(ScheduleStep::Barrier);
            p = p + 1;
        }
        proof {
            assert(r@ =~= tick_steps_spec(sys));
        }
        r
    }

    /// Hands one job to the pool: assigns it to the worker under the
    /// round-robin cursor and counts it in flight.
    pub fn send(&mut self, job: WorkerJob) -> (d: Dispatch)
        requires
            old(self).wf(),
            old(self).manager_spec().in_flight_spec() < usize::MAX,
        ensures
            final(self).wf(),
            d.target == old(self).manager_spec().cursor(),
            d.target < old(self).workers_count_spec(),
            d.job == job,
            final(self).manager_spec().cursor() == (old(self).manager_spec().cursor() + 1) % (
            old(self).workers_count_spec() as int),
            final(self).manager_spec().in_flight_spec() == old(self).manager_spec().in_flight_spec()
                + 1,
            final(self).manager_spec().workers_count_spec() == old(
                self,
            ).manager_spec().workers_count_spec(),
            final(self).manager_spec().buffer_size_spec() == old(
                self,
            ).manager_spec().buffer_size_spec(),
            final(self).systems_view() == old(self).systems_view(),
            final(self).tps_spec() == old(self).tps_spec(),
            final(self).tick_duration_spec() == old(self).tick_duration_spec(),
            final(self).last_tick_spec() == old(self).last_tick_spec(),
            final(self).workers_count_spec() == old(self).workers_count_spec(),
    {
        self.manager.send(job)
    }

    /// Dispatches one event job per drained event, in queue order, each to
    /// the next worker in round-robin order, all counted in flight.
    pub fn dispatch_events(&mut self, events: &Vec<EventRecord>) -> (ds: Vec<Dispatch>)
        requires
            old(self).wf(),
            old(self).manager_spec().in_flight_spec() + events@.len() <= usize::MAX,
        ensures
            final(self).wf(),
            ds@.len() == events@.len(),
            forall|k: int|
                0 <= k < events@.len() ==> (#[trigger] ds@[k]).job == WorkerJob::Event(events@[k])
                    && ds@[k].target == rr_target(
                    old(self).manager_spec().cursor() as int,
                    k,
                    old(self).workers_count_spec() as int,
                ),
            final(self).manager_spec().in_flight_spec() == old(self).manager_spec().in_flight_spec()
                + events@.len(),
            final(self).systems_view() == old(self).systems_view(),
            final(self).tps_spec() == old(self).tps_spec(),
            final(self).tick_duration_spec() == old(self).tick_duration_spec(),
            final(self).last_tick_spec() == old(self).last_tick_spec(),
            final(self).workers_count_spec() == old(self).workers_count_spec(),
    {
        let mut jobs: Vec<WorkerJob> = Vec::new();
        let mut k: usize = 0;
        while k < events.len()
            invariant
                k <= events@.len(),
                jobs@.len() == k,
                forall|m: int| 0 <= m < k ==> jobs@[m] == WorkerJob::Event(events@[m]),
            decreases events@.len() - k,
        {
            jobs.push(WorkerJob::Event(events[k]));
            k = k + 1;
        }
        self.manager.send_batch(&jobs)
    }

    /// Records one completed job with the pool's manager.
    pub fn job_completed(&mut self)
        requires
            old(self).manager_spec().in_flight_spec() > 0,
        ensures
            final(self).manager_spec().in_flight_spec() == old(self).manager_spec().in_flight_spec()
                - 1,
            final(self).manager_spec().cursor() == old(self).manager_spec().cursor(),
            final(self).manager_spec().workers_count_spec() == old(
                self,
            ).manager_spec().workers_count_spec(),
            final(self).manager_spec().buffer_size_spec() == old(
                self,
            ).manager_spec().buffer_size_spec(),
            final(self).wf() == old(self).wf(),
            final(self).systems_view() == old(self).systems_view(),
            final(self).tps_spec() == old(self).tps_spec(),
            final(self).tick_duration_spec() == old(self).tick_duration_spec(),
            final(self).last_tick_spec() == old(self).last_tick_spec(),
            final(self).workers_count_spec() == old(self).workers_count_spec(),
    {
        self.manager.job_completed()
    }

    /// Whether the completion barrier may open: true exactly when every
    /// dispatched job of the current barrier has completed.
    pub fn all_complete(&self) -> (r: bool)
        ensures
            r == (self.manager_spec().in_flight_spec() == 0),
    {
        self.manager.all_complete()
    }

    /// Jobs dispatched and not yet completed.
    pub fn pending_jobs(&self) -> (r: usize)
        ensures
            r == self.manager_spec().in_flight_spec(),
    {
        self.manager.in_flight()
    }

    /// Closes an iteration once both barriers have opened: advances the
    /// tick counter by exactly one, records the new iteration start, and
    /// reports whether the iteration overran its soft deadline — an
    /// overrun is reported, never fatal, and the tick advances regardless.
    pub fn finish_iteration(
        &mut self,
        server: &mut PtWarServer,
        elapsed: u128,
        now: u128,
    ) -> (overrun: bool)
        requires
            old(self).wf(),
            old(self).manager_spec().in_flight_spec() == 0,
            old(server).tick < Tick::MAX,
        ensures
            final(self).wf(),
            overrun == (elapsed > old(self).tick_duration_spec()),
            final(server).tick == old(server).tick + 1,
            final(server).events_queue == old(server).events_queue,
            final(server).stats == old(server).stats,
            final(self).last_tick_spec() == now,
            final(self).manager_spec() == old(self).manager_spec(),
            final(self).systems_view() == old(self).systems_view(),
            final(self).tps_spec() == old(self).tps_spec(),
            final(self).tick_duration_spec() == old(self).tick_duration_spec(),
            final(self).workers_count_spec() == old(self).workers_count_spec(),
    {
        let overrun = elapsed > self.tick_duration as u128;
        server.next_tick();
        self.last_tick = now;
        overrun
    }
}

} // verus!
