//! Shared identifiers and small enumerations of the game-entity domain.
//!
//! The stat arithmetic of soldiers and squads is an external collaborator of
//! the dispatch engine; only the plain identifiers and kinds the engine's
//! data model needs stand here.

use vstd::prelude::*;

verus! {

/// Identity of a game entity.
pub type GameId = u64;

/// The kinds of ammunition a weapon can consume.
#[derive(Debug, Clone, Copy, PartialEq, Eq, Structural, Hash)]
pub enum AmmoType {
    /// Small-arms rounds.
    Bullet,
    /// Artillery and tank shells.
    Shell,
    /// Self-propelled rockets.
    Rocket,
    /// Hand-thrown or launched grenades.
    Grenade,
}

} // verus!
