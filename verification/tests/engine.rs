use ptwar::event::{Event, EventRecord, EventRegistry};
use ptwar::save::{SaveGameSystem, SaveInterval};
use ptwar::system::{tick_duration_nanos, GameLoop, PtWarServer, SOrder, ScheduleStep, ServerStats};
use ptwar::worker::{JobAction, PWorkerManager, PWorkerStatus, WorkerJob, plan_job};
use ptwar::PTWar;

#[test]
fn round_robin_batch_assignment() {
    // Four workers, cursor at zero, ten jobs: job k goes to worker k mod 4.
    let mut manager = PWorkerManager::new(4, 16);
    let jobs: Vec<WorkerJob> = (0..10).map(WorkerJob::Tick).collect();
    let ds = manager.send_batch(&jobs);
    assert_eq!(ds.len(), 10);
    let expected = [0usize, 1, 2, 3, 0, 1, 2, 3, 0, 1];
    for (k, d) in ds.iter().enumerate() {
        assert_eq!(d.target, expected[k]);
        assert!(matches!(d.job, WorkerJob::Tick(h) if h == k));
    }
    // Worker 0 got jobs 0, 4, 8; worker 2 got jobs 2, 6.
    let of_worker = |w: usize| -> Vec<usize> {
        ds.iter()
            .filter(|d| d.target == w)
            .map(|d| match d.job {
                WorkerJob::Tick(h) => h,
                WorkerJob::Event(_) => unreachable!(),
            })
            .collect()
    };
    assert_eq!(of_worker(0), vec![0, 4, 8]);
    assert_eq!(of_worker(1), vec![1, 5, 9]);
    assert_eq!(of_worker(2), vec![2, 6]);
    assert_eq!(of_worker(3), vec![3, 7]);
}

#[test]
fn round_robin_single_sends_continue_cursor() {
    let mut manager = PWorkerManager::new(3, 16);
    let t0 = manager.send(WorkerJob::Tick(0)).target;
    let t1 = manager.send(WorkerJob::Tick(1)).target;
    let t2 = manager.send(WorkerJob::Tick(2)).target;
    let t3 = manager.send(WorkerJob::Tick(3)).target;
    assert_eq!((t0, t1, t2, t3), (0, 1, 2, 0));
    // A batch picks up where single sends left the cursor.
    let ds = manager.send_batch(&vec![WorkerJob::Tick(4), WorkerJob::Tick(5)]);
    assert_eq!(ds[0].target, 1);
    assert_eq!(ds[1].target, 2);
}

#[test]
fn in_flight_counts_dispatches_and_completions() {
    let mut manager = PWorkerManager::new(2, 16);
    assert!(manager.all_complete());
    manager.send(WorkerJob::Tick(0));
    manager.send(WorkerJob::Tick(1));
    manager.send(WorkerJob::Tick(2));
    assert_eq!(manager.in_flight(), 3);
    assert!(!manager.all_complete());
    manager.job_completed();
    manager.job_completed();
    assert_eq!(manager.in_flight(), 1);
    assert!(!manager.all_complete());
    manager.job_completed();
    assert_eq!(manager.in_flight(), 0);
    assert!(manager.all_complete());
}

#[test]
fn worker_status_transitions() {
    let idle = PWorkerStatus::Idle;
    assert_eq!(idle.on_receive(true), PWorkerStatus::Working);
    assert_eq!(PWorkerStatus::Working.on_job_done(), PWorkerStatus::Idle);
    assert_eq!(idle.on_receive(false), PWorkerStatus::Stopped);
}

#[test]
fn event_registry_routes_by_type_code() {
    let mut registry = EventRegistry::new();
    registry.register(1, 10);
    registry.register(2, 20);
    registry.register(1, 11);
    assert_eq!(registry.handlers_for(1), vec![10, 11]);
    assert_eq!(registry.handlers_for(2), vec![20]);
    assert_eq!(registry.handlers_for(3), Vec::<usize>::new());
}

#[test]
fn plan_job_routes_events_and_reports_unrouted() {
    let mut registry = EventRegistry::new();
    registry.register(7, 70);
    match plan_job(WorkerJob::Tick(4), &registry) {
        JobAction::RunTick(h) => assert_eq!(h, 4),
        _ => panic!("a tick job must run its handler"),
    }
    match plan_job(WorkerJob::Event(EventRecord::new(7, "Routed")), &registry) {
        JobAction::RunEvent(e, hs) => {
            assert_eq!(e.type_code, 7);
            assert_eq!(hs, vec![70]);
        }
        _ => panic!("a registered event must be routed"),
    }
    match plan_job(WorkerJob::Event(EventRecord::new(8, "Orphan")), &registry) {
        JobAction::Unrouted(e) => assert_eq!(e.name, "Orphan"),
        _ => panic!("an unregistered event must be reported unrouted"),
    }
}

#[test]
fn event_record_names_its_type() {
    let e = EventRecord::new(42, "SomethingHappened");
    assert_eq!(e.type_code(), 42);
    assert_eq!(e.get_name(), "SomethingHappened");
}

#[test]
fn phase_order_is_fixed() {
    let order = SOrder::order();
    assert_eq!(
        order,
        vec![SOrder::First, SOrder::Second, SOrder::Third, SOrder::Last]
    );
    assert_eq!(SOrder::First.index(), 0);
    assert_eq!(SOrder::Last.index(), 3);
}

#[test]
fn tick_plan_orders_phases_with_barriers() {
    let (mut gloop, _server) = GameLoop::new(4, 60);
    gloop.add_system(SOrder::First, 10);
    gloop.add_system(SOrder::First, 11);
    gloop.add_system(SOrder::Second, 20);
    gloop.add_system(SOrder::Last, 30);
    let steps = gloop.tick_steps();
    assert_eq!(steps.len(), 8);
    assert!(matches!(steps[0], ScheduleStep::Job(SOrder::First, 10)));
    assert!(matches!(steps[1], ScheduleStep::Job(SOrder::First, 11)));
    assert!(matches!(steps[2], ScheduleStep::Barrier));
    assert!(matches!(steps[3], ScheduleStep::Job(SOrder::Second, 20)));
    assert!(matches!(steps[4], ScheduleStep::Barrier));
    assert!(matches!(steps[5], ScheduleStep::Barrier));
    assert!(matches!(steps[6], ScheduleStep::Job(SOrder::Last, 30)));
    assert!(matches!(steps[7], ScheduleStep::Barrier));
    // Every job of an earlier phase stands before the barrier that stands
    // before any job of a later phase.
    let first_jobs_end = 2;
    let second_job = 3;
    assert!(first_jobs_end < second_job);
}

#[test]
fn handlers_keep_registration_order_within_a_phase() {
    let (mut gloop, _server) = GameLoop::new(2, 60);
    gloop.add_system(SOrder::Third, 5);
    gloop.add_system(SOrder::Third, 3);
    gloop.add_system(SOrder::Third, 9);
    let steps = gloop.tick_steps();
    // Three barriers for the empty phases, then the jobs in insertion order.
    assert!(matches!(steps[0], ScheduleStep::Barrier));
    assert!(matches!(steps[1], ScheduleStep::Barrier));
    assert!(matches!(steps[2], ScheduleStep::Job(SOrder::Third, 5)));
    assert!(matches!(steps[3], ScheduleStep::Job(SOrder::Third, 3)));
    assert!(matches!(steps[4], ScheduleStep::Job(SOrder::Third, 9)));
    assert!(matches!(steps[5], ScheduleStep::Barrier));
    assert!(matches!(steps[6], ScheduleStep::Barrier));
}

#[test]
fn drained_events_are_dispatched_same_tick() {
    let (mut gloop, mut server) = GameLoop::new(2, 60);
    server.add_event(EventRecord::new(1, "A"));
    server.add_event(EventRecord::new(2, "B"));
    server.add_event(EventRecord::new(3, "C"));
    let drained = server.drain_events();
    assert_eq!(server.events_queue.len(), 0);
    assert_eq!(drained.len(), 3);
    let ds = gloop.dispatch_events(&drained);
    assert_eq!(ds.len(), 3);
    for (k, d) in ds.iter().enumerate() {
        assert_eq!(d.target, k % 2);
        match d.job {
            WorkerJob::Event(e) => assert_eq!(e.type_code, (k + 1) as u64),
            WorkerJob::Tick(_) => panic!("a drained event must become an event job"),
        }
    }
    // A second drain in the same tick finds nothing: everything already
    // dispatched, nothing deferred.
    assert_eq!(server.drain_events().len(), 0);
}

#[test]
fn tick_rate_of_sixty_gives_sixteen_millisecond_budget() {
    assert_eq!(tick_duration_nanos(60), 16_666_666);
    let (gloop, _server) = GameLoop::new(1, 60);
    assert_eq!(gloop.tick_duration(), 16_666_666);
}

#[test]
fn overrun_iteration_warns_and_still_advances_tick() {
    let (mut gloop, mut server) = GameLoop::new(1, 60);
    // 20 ms of work against a ~16.67 ms budget: one overrun, tick advances.
    let overrun = gloop.finish_iteration(&mut server, 20_000_000, 20_000_000);
    assert!(overrun);
    assert_eq!(server.tick(), 1);
    // An iteration within budget: no overrun, tick advances again.
    let overrun = gloop.finish_iteration(&mut server, 16_000_000, 40_000_000);
    assert!(!overrun);
    assert_eq!(server.tick(), 2);
}

#[test]
fn tick_advances_by_exactly_one_per_iteration() {
    let (mut gloop, mut server) = GameLoop::new(1, 60);
    let mut seen: Vec<u128> = Vec::new();
    for n in 0..5u128 {
        assert_eq!(server.tick(), n);
        seen.push(server.tick());
        gloop.finish_iteration(&mut server, 1_000_000, (n + 1) * 17_000_000);
    }
    assert_eq!(seen, vec![0, 1, 2, 3, 4]);
    assert_eq!(server.tick(), 5);
}

#[test]
fn iteration_due_and_sleep_span() {
    let (mut gloop, mut server) = GameLoop::new(1, 60);
    // Fresh loop: everything since timestamp zero has elapsed.
    assert!(gloop.iteration_due(16_666_666));
    gloop.finish_iteration(&mut server, 1_000_000, 100_000_000);
    assert!(!gloop.iteration_due(100_000_001));
    assert_eq!(gloop.nanos_until_due(100_000_001), 16_666_665);
    assert!(gloop.iteration_due(116_666_666));
    assert_eq!(gloop.nanos_until_due(116_666_666), 0);
}

#[test]
fn save_interval_tick_saves_exactly_on_multiples() {
    let system = SaveGameSystem::new(SaveInterval::Tick(100));
    for (tick, expected) in [(100u128, true), (150, false), (200, true), (300, true), (1, false)] {
        assert_eq!(system.should_save(tick, None, 0), expected);
    }
    // Tick zero is divisible by every period.
    assert!(system.should_save(0, None, 0));
}

#[test]
fn save_interval_time_saves_after_span_or_first() {
    let system = SaveGameSystem::new(SaveInterval::Time(1_000));
    // No save ever recorded: due.
    assert!(system.should_save(7, None, 5));
    // Last save 999 ns ago: not due; 1000 ns ago: due.
    assert!(!system.should_save(7, Some((3, 500)), 1_499));
    assert!(system.should_save(7, Some((3, 500)), 1_500));
    assert!(system.should_save(7, Some((3, 500)), 2_000));
}

#[test]
fn save_interval_never_never_saves() {
    let system = SaveGameSystem::new(SaveInterval::Never);
    assert!(!system.should_save(0, None, 0));
    assert!(!system.should_save(100, Some((1, 1)), u128::MAX));
}

#[test]
fn save_handler_records_current_tick() {
    let mut server = PtWarServer::new();
    server.next_tick();
    server.next_tick();
    let system = SaveGameSystem::new(SaveInterval::Tick(2));
    system.handle(2, &mut server, 777);
    assert_eq!(server.stats.last_save, Some((2, 777)));
    // Not due on tick 3: the record is untouched.
    server.next_tick();
    system.handle(3, &mut server, 999);
    assert_eq!(server.stats.last_save, Some((2, 777)));
}

#[test]
fn server_state_starts_empty() {
    let server = PtWarServer::new();
    assert_eq!(server.tick(), 0);
    assert_eq!(server.events_queue.len(), 0);
    assert_eq!(server.stats.last_save, None);
    let stats = ServerStats::default();
    assert_eq!(stats.tick, 0);
    assert_eq!(stats.last_tick, 0);
    assert_eq!(stats.last_save, None);
}

#[test]
fn game_builds_with_at_least_one_worker_at_default_rate() {
    let (game, server) = PTWar::new();
    assert!(game.gloop.workers_count() >= 1);
    assert_eq!(game.gloop.tick_duration(), tick_duration_nanos(ptwar::DEFAULT_TPS));
    assert_eq!(server.tick(), 0);
}
