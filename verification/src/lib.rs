//! Tick-synchronized dispatch engine for a server-side strategy-game
//! simulation: a fixed-rate scheduler, a phase-ordered handler registry,
//! a worker pool with round-robin assignment and a completion barrier,
//! and a type-identified event queue drained once per tick.

pub mod event;
pub mod game;
pub mod resource;
pub mod save;
pub mod system;
pub mod tile;
pub mod worker;

use vstd::prelude::*;

use crate::system::{GameLoop, PtWarServer, TPS};

verus! {

/// The tick rate the game runs at unless configured otherwise.
pub const DEFAULT_TPS: TPS = 60;

/// Relies on num_cpus::get: the number of logical CPUs of the current
/// system, documented to always be at least 1.
#[verifier::external_body]
fn available_cpu_count() -> (r: usize)
    ensures
        r >= 1,
{
    num_cpus::get()
}

/// The assembled game: a loop sized to the host's concurrency budget,
/// running at the default tick rate.  The embedding runtime builds one of
/// these at process start and drives the loop until process exit.
pub struct PTWar {
    /// The game loop.
    pub gloop: GameLoop,
}

impl PTWar {
    /// Builds the game and the server state it runs on: one worker per
    /// logical CPU of the host, at the default tick rate.
    pub fn new() -> (r: (PTWar, PtWarServer))
        ensures
            r.0.gloop.wf(),
            r.0.gloop.tps_spec() == DEFAULT_TPS,
            r.0.gloop.workers_count_spec() >= 1,
            r.0.gloop.manager_spec().in_flight_spec() == 0,
            r.1.tick == 0,
            r.1.events_queue@.len() == 0,
            r.1.stats.last_save is None,
    {
        let cpu_cores = available_cpu_count();
        let (gloop, server) = GameLoop::new(cpu_cores, DEFAULT_TPS);
        (PTWar { gloop }, server)
    }
}

} // verus!
