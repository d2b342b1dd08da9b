//! The save system: a tick handler that decides, once per tick, whether the
//! current state is due to be saved, and records the save when it is.
//!
//! Wall-clock instants reach this module as plain nanosecond timestamps;
//! the persistence mechanism itself is an external collaborator.

use vstd::prelude::*;

use crate::system::{PtWarServer, Tick};

verus! {

/// When the save system saves: never, every so many ticks, or whenever so
/// many nanoseconds have passed since the last recorded save.
#[derive(Debug, Clone, Copy, PartialEq, Eq, Structural)]
pub enum SaveInterval {
    /// Never save.
    Never,
    /// Save exactly on the ticks divisible by the given period.
    Tick(Tick),
    /// Save whenever at least this many nanoseconds have passed since the
    /// last recorded save, or when none was ever recorded.
    Time(u128),
}

impl SaveInterval {
    /// A tick period of zero would divide by zero; every other interval is
    /// fine.
    pub open spec fn wf(self) -> bool {
        match self {
            SaveInterval::Tick(period) => period != 0,
            _ => true,
        }
    }
}

/// Whether a save is due: never for `None`; for `Tick(p)` exactly when the
/// tick is divisible by `p`; for `Time(d)` exactly when no save was ever
/// recorded or at least `d` nanoseconds passed since the last one.
pub open spec fn should_save_spec(
    interval: SaveInterval,
    tick: Tick,
    last_save: Option<(Tick, u128)>,
    now: u128,
) -> bool {
    match interval {
        SaveInterval::Never => false,
        SaveInterval::Tick(period) => tick as int % period as int == 0,
        SaveInterval::Time(span) => match last_save {
            Option::None => true,
            Option::Some((_, saved_at)) => now - saved_at >= span,
        },
    }
}

/// Saves the game on the configured interval: registered as a tick handler,
/// it checks once per tick whether a save is due and records one when it is.
pub struct SaveGameSystem {
    save_interval: SaveInterval,
}

impl SaveGameSystem {
    /// The configured interval.
    pub closed spec fn save_interval_spec(self) -> SaveInterval {
        self.save_interval
    }

    /// A save system with the given interval.
    pub fn new(save_interval: SaveInterval) -> (r: SaveGameSystem)
        ensures
            r.save_interval_spec() == save_interval,
    {
        SaveGameSystem { save_interval }
    }

    /// Whether a save is due at the given tick and time, given the last
    /// recorded save.
    pub fn should_save(&self, tick: Tick, last_save: Option<(Tick, u128)>, now: u128) -> (r: bool)
        requires
            self.save_interval_spec().wf(),
            last_save matches Some((_, saved_at)) ==> saved_at <= now,
        ensures
            r == should_save_spec(self.save_interval_spec(), tick, last_save, now),
    {
        match self.save_interval {
            SaveInterval::Never => false,
            SaveInterval::Tick(period) => tick % period == 0,
            SaveInterval::Time(span) => match last_save {
                Option::None => true,
                Option::Some((_, saved_at)) => now - saved_at >= span,
            },
        }
    }

    /// One per-tick invocation: decides from the server's stats whether a
    /// save is due and, exactly when it is, records a save of the server's
    /// current tick at the given time; otherwise the server is untouched.
    pub fn handle(&self, tick: Tick, server: &mut PtWarServer, now: u128)
        requires
            self.save_interval_spec().wf(),
            old(server).stats.last_save matches Some((_, saved_at)) ==> saved_at <= now,
        ensures
            ({
                let due = should_save_spec(
                    self.save_interval_spec(),
                    tick,
                    old(server).stats.last_save,
                    now,
                );
                &&& due ==> final(server).stats.last_save == Some((old(server).tick, now))
                &&& !due ==> *final(server) == *old(server)
            }),
            final(server).tick == old(server).tick,
            final(server).events_queue == old(server).events_queue,
            final(server).stats.tick == old(server).stats.tick,
            final(server).stats.last_tick == old(server).stats.last_tick,
    {
        let due = self.should_save(tick, server.stats.last_save, now);
        if due {
            server.save(now);
        }
    }
}

} // verus!
