use vstd::prelude::*;
use crate::belief::{BallId, CombatantId, PlateId};

verus! {

/// What a collider in the arena belongs to.
#[derive(Clone, Copy, Debug, PartialEq, Eq, Structural)]
pub enum GameObjectType {
    Invalid,
    Barrier,
    Ball(BallId),
    Combatant(CombatantId),
    BallSpawn,
    Plate(PlateId),
}

/// The side a combatant plays for.
#[derive(Clone, Copy, Debug, PartialEq, Eq, Structural)]
pub enum TeamAlignment {
    Home,
    Away,
}

} // verus!
