use vstd::prelude::*;
use crate::belief::{BallId, CombatantId, GameTickNumber, Vector3Bits};
use crate::simulation_event::SimulationEvent;

verus! {

/// The bits of the `f32` charge a ball has when it is picked up (30.0).
pub const HELD_BALL_CHARGE: u32 = 0x41f0_0000;

/// What a ball is doing.
#[derive(Debug, Clone, Copy, PartialEq, Eq, Structural)]
pub enum BallState {
    Idle,
    Held { holder_id: CombatantId },
    ThrownAtTarget { direction: Vector3Bits, thrower_id: CombatantId, target_id: CombatantId },
    Explode,
}

/// The bookkeeping of a ball in a game; its body in the physics world is kept by the caller.
/// The charge is the bit pattern of an `f32`.
#[derive(Debug, Clone, Copy, PartialEq, Eq, Structural)]
pub struct BallObject {
    pub id: BallId,
    pub state: BallState,
    pub state_tick_stamp: GameTickNumber,
    pub charge: u32,
    pub is_dirty: bool,
    pub held_by: Option<CombatantId>,
}

/// The ball after a change of state at a tick.
pub open spec fn with_state(b: BallObject, tick: GameTickNumber, state: BallState) -> BallObject {
    BallObject { state, state_tick_stamp: tick, is_dirty: true, ..b }
}

/// The ball after it is given to a holder (or to none) at a tick. Only an idle ball changes
/// hands; a new holder makes it held with the pick-up charge, no holder leaves it idle.
pub open spec fn with_holder(b: BallObject, holder: Option<CombatantId>, tick: GameTickNumber) -> BallObject {
    if b.state != BallState::Idle {
        b
    } else {
        match holder {
            Some(id) => BallObject {
                held_by: holder,
                charge: HELD_BALL_CHARGE,
                ..with_state(b, tick, BallState::Held { holder_id: id })
            },
            None => BallObject { held_by: holder, ..with_state(b, tick, BallState::Idle) },
        }
    }
}

impl BallObject {
    /// A new idle ball without charge, created at a tick.
    pub fn new(id: BallId, creation_tick: GameTickNumber) -> (r: BallObject)
        ensures
            r == (BallObject {
                id,
                state: BallState::Idle,
                state_tick_stamp: creation_tick,
                charge: 0,
                is_dirty: false,
                held_by: None,
            }),
    {
        BallObject {
            id,
            state: BallState::Idle,
            state_tick_stamp: creation_tick,
            charge: 0,
            is_dirty: false,
            held_by: None,
        }
    }

    pub fn id(&self) -> (r: BallId)
        ensures
            r == self.id,
    {
        self.id
    }

    pub fn is_dirty(&self) -> (r: bool)
        ensures
            r == self.is_dirty,
    {
        self.is_dirty
    }

    /// Moves the ball to a new state at a tick; returns the state it left and the tick at which
    /// it had entered it.
    pub fn change_state(&mut self, current_tick: GameTickNumber, new_state: BallState) -> (r: (
        BallState,
        GameTickNumber,
    ))
        ensures
            r == (old(self).state, old(self).state_tick_stamp),
            *final(self) == with_state(*old(self), current_tick, new_state),
    {
        let old_state = self.state;
        let old_tick_timestamp = self.state_tick_stamp;
        self.state = new_state;
        self.state_tick_stamp = current_tick;
        self.is_dirty = true;
        (old_state, old_tick_timestamp)
    }

    /// Hands the ball to a combatant, or lets go of it (`None`); nothing happens unless the
    /// ball is idle.
    pub fn set_held_by(&mut self, combatant_id: Option<CombatantId>, current_tick: GameTickNumber)
        ensures
            *final(self) == with_holder(*old(self), combatant_id, current_tick),
    {
        if self.state != BallState::Idle {
            return;
        }
        self.held_by = combatant_id;
        match combatant_id {
            Some(id) => {
                self.change_state(current_tick, BallState::Held { holder_id: id });
                self.charge = HELD_BALL_CHARGE;
            },
            None => {
                self.change_state(current_tick, BallState::Idle);
            },
        }
    }

    /// Whether the ball gains charge this tick: only balls flying at a target do.
    pub fn gains_charge(&self) -> (r: bool)
        ensures
            r == (self.state is ThrownAtTarget),
    {
        match self.state {
            BallState::ThrownAtTarget { .. } => true,
            _ => false,
        }
    }

    /// The combatant holding the ball, if it is held.
    pub fn holder(&self) -> (r: Option<CombatantId>)
        ensures
            r == (match self.state {
                BallState::Held { holder_id } => Some(holder_id),
                _ => None,
            }),
    {
        match self.state {
            BallState::Held { holder_id } => Some(holder_id),
            _ => None,
        }
    }
}

/// A combatant caught in an explosion, with the force (bits of an `f32`) and its direction.
#[derive(Debug, Clone, Copy, PartialEq, Eq, Structural)]
pub struct ExplosionHit {
    pub combatant_id: CombatantId,
    pub force_magnitude: u32,
    pub force_direction: Vector3Bits,
}

/// The events of the combatants that an exploding ball hits: for each, the force applied to it
/// and the start of its stun.
pub open spec fn hit_events(ball_id: BallId, hits: Seq<ExplosionHit>) -> Seq<SimulationEvent>
    decreases hits.len(),
{
    if hits.len() == 0 {
        seq![]
    } else {
        hit_events(ball_id, hits.drop_last()) + seq![
            SimulationEvent::BallExplosionForceApplied {
                ball_id,
                combatant_id: hits.last().combatant_id,
                force_magnitude: hits.last().force_magnitude,
                force_direction: hits.last().force_direction,
            },
            SimulationEvent::CombatantStunned { combatant_id: hits.last().combatant_id, start: true },
        ]
    }
}

/// The events of a ball in one tick: when it is exploding, the explosion and the events of
/// the combatants it hits; then its position update, at its holder's hand when it is held and
/// where its body lies otherwise.
pub open spec fn ball_tick_events(
    b: BallObject,
    hits: Seq<ExplosionHit>,
    held_position: Vector3Bits,
    body_position: Vector3Bits,
) -> Seq<SimulationEvent> {
    let explosion = if b.state == BallState::Explode {
        seq![SimulationEvent::BallExplosion { ball_id: b.id, charge: b.charge }] + hit_events(b.id, hits)
    } else {
        seq![]
    };
    let position = if b.state is Held {
        held_position
    } else {
        body_position
    };
    explosion + seq![SimulationEvent::BallPositionUpdate { ball_id: b.id, position, charge: b.charge }]
}

/// The events a ball produces in one tick, given the combatants its explosion reaches and the
/// two positions measured in the physics world.
pub fn ball_tick(
    ball: &BallObject,
    hits: &Vec<ExplosionHit>,
    held_position: Vector3Bits,
    body_position: Vector3Bits,
) -> (r: Vec<SimulationEvent>)
    ensures
        r@ == ball_tick_events(*ball, hits@, held_position, body_position),
{
    let mut events: Vec<SimulationEvent> = Vec::new();
    if ball.state == BallState::Explode {
        events.push(SimulationEvent::BallExplosion { ball_id: ball.id, charge: ball.charge });
        let mut i: usize = 0;
        while i < hits.len()
            invariant
                i <= hits.len(),
                ball.state == BallState::Explode,
                events@ == seq![SimulationEvent::BallExplosion { ball_id: ball.id, charge: ball.charge }]
                    + hit_events(ball.id, hits@.take(i as int)),
            decreases hits.len() - i,
        {
            let h = hits[i];
            events.push(SimulationEvent::BallExplosionForceApplied {
                ball_id: ball.id,
                combatant_id: h.combatant_id,
                force_magnitude: h.force_magnitude,
                force_direction: h.force_direction,
            });
            events.push(SimulationEvent::CombatantStunned { combatant_id: h.combatant_id, start: true });
            proof {
                assert(hits@.take(i + 1).drop_last() =~= hits@.take(i as int));
            }
            i = i + 1;
            assert(events@ =~= seq![SimulationEvent::BallExplosion { ball_id: ball.id, charge: ball.charge }]
                + hit_events(ball.id, hits@.take(i as int)));
        }
        assert(hits@.take(hits.len() as int) =~= hits@);
    }
    let position = match ball.state {
        BallState::Held { .. } => held_position,
        _ => body_position,
    };
    events.push(SimulationEvent::BallPositionUpdate { ball_id: ball.id, position, charge: ball.charge });
    assert(events@ =~= ball_tick_events(*ball, hits@, held_position, body_position));
    events
}

} // verus!
