use vstd::prelude::*;
use crate::belief::{BallId, Belief, CombatantId, PlateId, Vector3Bits};

verus! {

/// A rotation as the bit patterns of the four `f32` components of a quaternion.
#[derive(Debug, Clone, Copy, PartialEq, Eq, Structural)]
pub struct QuaternionBits {
    pub i: u32,
    pub j: u32,
    pub k: u32,
    pub w: u32,
}

/// SimulationEvents are any notable action that happens during a simulation. These events are
/// collected to form a recap of the game. Quantities measured in the physics world (positions,
/// charges, forces) are held as the bit patterns of their `f32` values.
#[derive(Debug, Clone, Copy, PartialEq, Eq, Structural)]
pub enum SimulationEvent {
    /// The initial position of an arena object.
    ArenaObjectPositionUpdate {
        object_type_id: u32,
        position: Vector3Bits,
        scale: Vector3Bits,
        rotation: QuaternionBits,
    },
    /// A ball has moved through the world.
    BallPositionUpdate { ball_id: BallId, position: Vector3Bits, charge: u32 },
    /// A combatant has moved through the world.
    CombatantPositionUpdate { combatant_id: CombatantId, position: Vector3Bits },
    /// A combatant has begun being on a plate.
    CombatantOnPlate { combatant_id: CombatantId, plate_id: PlateId },
    /// A combatant has stopped being on a plate.
    CombatantOffPlate { combatant_id: CombatantId, plate_id: PlateId },
    /// A combatant has picked up a ball that was on the ground.
    CombatantPickedUpBall { combatant_id: CombatantId, ball_id: BallId },
    /// A combatant has dropped a ball without throwing it.
    CombatantDroppedBall { combatant_id: CombatantId, ball_id: BallId },
    /// A ball has been thrown targeting an enemy.
    BallThrownAtEnemy {
        thrower_id: CombatantId,
        enemy_id: CombatantId,
        ball_id: BallId,
        ball_impulse_vector: Vector3Bits,
    },
    /// A ball has been thrown targeting a teammate.
    BallThrownAtTeammate {
        thrower_id: CombatantId,
        teammate_id: CombatantId,
        ball_id: BallId,
        ball_impulse_vector: Vector3Bits,
    },
    /// A thrown ball was caught.
    ThrownBallCaught { thrower_id: CombatantId, catcher_id: CombatantId, ball_id: BallId },
    /// A ball has collided with an enemy.
    BallCollisionEnemy { thrower_id: CombatantId, enemy_id: CombatantId, ball_id: BallId },
    /// A ball has collided with the arena, defusing it.
    BallCollisionArena {
        thrower_id: CombatantId,
        original_target_id: CombatantId,
        ball_id: BallId,
    },
    /// A ball has exploded.
    BallExplosion { ball_id: BallId, charge: u32 },
    /// A ball explosion has applied force to a combatant.
    BallExplosionForceApplied {
        ball_id: BallId,
        combatant_id: CombatantId,
        force_magnitude: u32,
        force_direction: Vector3Bits,
    },
    /// Points have been scored this tick by a combatant on a plate.
    PointsScoredByCombatant { plate_id: PlateId, combatant_id: CombatantId, points: u8 },
    /// A combatant's stun has started or ended.
    CombatantStunned { combatant_id: CombatantId, start: bool },
    /// A shove has applied force to a combatant.
    CombatantShoveForceApplied {
        shover_combatant_id: CombatantId,
        recipient_target_id: CombatantId,
        force_magnitude: u32,
        force_direction: Vector3Bits,
    },
    /// A belief is shared with every other combatant.
    BroadcastBelief { from_combatant_id: CombatantId, belief: Belief },
}

/// The position of an event's variant in the declaration of [`SimulationEvent`].
pub open spec fn event_variant(e: SimulationEvent) -> nat {
    match e {
        SimulationEvent::ArenaObjectPositionUpdate { .. } => 0,
        SimulationEvent::BallPositionUpdate { .. } => 1,
        SimulationEvent::CombatantPositionUpdate { .. } => 2,
        SimulationEvent::CombatantOnPlate { .. } => 3,
        SimulationEvent::CombatantOffPlate { .. } => 4,
        SimulationEvent::CombatantPickedUpBall { .. } => 5,
        SimulationEvent::CombatantDroppedBall { .. } => 6,
        SimulationEvent::BallThrownAtEnemy { .. } => 7,
        SimulationEvent::BallThrownAtTeammate { .. } => 8,
        SimulationEvent::ThrownBallCaught { .. } => 9,
        SimulationEvent::BallCollisionEnemy { .. } => 10,
        SimulationEvent::BallCollisionArena { .. } => 11,
        SimulationEvent::BallExplosion { .. } => 12,
        SimulationEvent::BallExplosionForceApplied { .. } => 13,
        SimulationEvent::PointsScoredByCombatant { .. } => 14,
        SimulationEvent::CombatantStunned { .. } => 15,
        SimulationEvent::CombatantShoveForceApplied { .. } => 16,
        SimulationEvent::BroadcastBelief { .. } => 17,
    }
}

/// The variant's position, computed.
pub fn variant_of(e: &SimulationEvent) -> (r: u8)
    ensures
        r as nat == event_variant(*e),
{
    match e {
        SimulationEvent::ArenaObjectPositionUpdate { .. } => 0,
        SimulationEvent::BallPositionUpdate { .. } => 1,
        SimulationEvent::CombatantPositionUpdate { .. } => 2,
        SimulationEvent::CombatantOnPlate { .. } => 3,
        SimulationEvent::CombatantOffPlate { .. } => 4,
        SimulationEvent::CombatantPickedUpBall { .. } => 5,
        SimulationEvent::CombatantDroppedBall { .. } => 6,
        SimulationEvent::BallThrownAtEnemy { .. } => 7,
        SimulationEvent::BallThrownAtTeammate { .. } => 8,
        SimulationEvent::ThrownBallCaught { .. } => 9,
        SimulationEvent::BallCollisionEnemy { .. } => 10,
        SimulationEvent::BallCollisionArena { .. } => 11,
        SimulationEvent::BallExplosion { .. } => 12,
        SimulationEvent::BallExplosionForceApplied { .. } => 13,
        SimulationEvent::PointsScoredByCombatant { .. } => 14,
        SimulationEvent::CombatantStunned { .. } => 15,
        SimulationEvent::CombatantShoveForceApplied { .. } => 16,
        SimulationEvent::BroadcastBelief { .. } => 17,
    }
}

/// An event produced by a game object that has not yet been committed to the simulation: it may
/// still be discarded (a combatant about to throw may be stunned first).
#[derive(Debug, Clone, Copy)]
pub struct PendingSimulationEvent(pub SimulationEvent);

impl PendingSimulationEvent {
    /// Whether both pending events are the same variant of [`SimulationEvent`].
    pub fn is_same_variant(&self, other: &PendingSimulationEvent) -> (r: bool)
        ensures
            r == (event_variant(self.0) == event_variant(other.0)),
    {
        variant_of(&self.0) == variant_of(&other.0)
    }
}

} // verus!
