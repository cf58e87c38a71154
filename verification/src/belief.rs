use vstd::prelude::*;
use crate::satisfiable::{FieldTest, FieldValue, SatisfiableField, SatisfiabilityTest, Uniqueness, field_satisfied};

verus! {

/// Identifies a ball.
pub type BallId = u16;

/// Identifies a combatant.
pub type CombatantId = u64;

/// Identifies a plate.
pub type PlateId = u64;

/// Numbers the ticks of a game.
pub type GameTickNumber = u32;

/// A three-dimensional vector, each component held as the bit pattern of an `f32`
/// (`f32::to_bits`). The decision logic only ever copies and compares these values.
#[derive(Clone, Copy, Debug, PartialEq, Eq, Structural)]
pub struct Vector3Bits {
    pub x: u32,
    pub y: u32,
    pub z: u32,
}

/// Beliefs are an agent's understanding of the world.
/// These aren't necessarily true statements about actual game state,
/// but serve as data points for making decisions.
#[derive(Clone, Copy, Debug, PartialEq, Eq, Structural)]
pub enum Belief {
    /// The agent has looked around its surroundings on the given tick.
    ScannedEnvironment { tick: u32 },
    /// A ball was seen at a position, moving along a trajectory.
    BallPosition { ball_id: u16, position: Vector3Bits, trajectory: Vector3Bits },
    /// A combatant was seen at a position.
    CombatantPosition { combatant_id: u64, position: Vector3Bits },
    /// A plate lies at a position.
    PlatePosition { plate_id: u64, position: Vector3Bits },
    /// A combatant stands on a plate.
    OnPlate { plate_id: u64, combatant_id: u64 },
    /// A combatant holds a ball.
    HeldBall { ball_id: u16, combatant_id: u64 },
    /// A ball is within a combatant's reach.
    InBallPickupRange { ball_id: u16, combatant_id: u64 },
    /// One combatant can reach another.
    CanReachCombatant { self_combatant_id: u64, target_combatant_id: u64 },
    /// A ball was thrown at a combatant, who may have stood on a plate.
    BallThrownAtCombatant { ball_id: u16, thrower_combatant_id: u64, target_combatant_id: u64, target_on_plate: Option<u64> },
    /// A ball is in flight.
    BallIsFlying { ball_id: u16 },
    /// One combatant sees another with nothing in between.
    DirectLineOfSightToCombatant { self_combatant_id: u64, other_combatant_id: u64 },
    /// A combatant was shoved, possibly off a plate.
    CombatantShoved { combatant_id: u64, on_plate: Option<u64> },
    /// A combatant caught a ball thrown by another.
    BallCaught { combatant_id: u64, thrower_id: u64, ball_id: u16 },
    /// A combatant is stunned.
    CombatantIsStunned { combatant_id: u64 },
}

/// The position of a belief's variant in the list of variants.
pub open spec fn belief_variant(b: Belief) -> nat {
    match b {
        Belief::ScannedEnvironment { .. } => 0,
        Belief::BallPosition { .. } => 1,
        Belief::CombatantPosition { .. } => 2,
        Belief::PlatePosition { .. } => 3,
        Belief::OnPlate { .. } => 4,
        Belief::HeldBall { .. } => 5,
        Belief::InBallPickupRange { .. } => 6,
        Belief::CanReachCombatant { .. } => 7,
        Belief::BallThrownAtCombatant { .. } => 8,
        Belief::BallIsFlying { .. } => 9,
        Belief::DirectLineOfSightToCombatant { .. } => 10,
        Belief::CombatantShoved { .. } => 11,
        Belief::BallCaught { .. } => 12,
        Belief::CombatantIsStunned { .. } => 13,
    }
}

/// A test on beliefs: it passes a belief of its own variant whose fields all pass the
/// field tests. Position and trajectory fields are not tested.
#[derive(Debug)]
pub enum BeliefTest {
    ScannedEnvironment { tick: SatisfiableField<u32> },
    BallPosition { ball_id: SatisfiableField<u16> },
    CombatantPosition { combatant_id: SatisfiableField<u64> },
    PlatePosition { plate_id: SatisfiableField<u64> },
    OnPlate { plate_id: SatisfiableField<u64>, combatant_id: SatisfiableField<u64> },
    HeldBall { ball_id: SatisfiableField<u16>, combatant_id: SatisfiableField<u64> },
    InBallPickupRange { ball_id: SatisfiableField<u16>, combatant_id: SatisfiableField<u64> },
    CanReachCombatant { self_combatant_id: SatisfiableField<u64>, target_combatant_id: SatisfiableField<u64> },
    BallThrownAtCombatant { ball_id: SatisfiableField<u16>, thrower_combatant_id: SatisfiableField<u64>, target_combatant_id: SatisfiableField<u64>, target_on_plate: SatisfiableField<Option<u64>> },
    BallIsFlying { ball_id: SatisfiableField<u16> },
    DirectLineOfSightToCombatant { self_combatant_id: SatisfiableField<u64>, other_combatant_id: SatisfiableField<u64> },
    CombatantShoved { combatant_id: SatisfiableField<u64>, on_plate: SatisfiableField<Option<u64>> },
    BallCaught { combatant_id: SatisfiableField<u64>, thrower_id: SatisfiableField<u64>, ball_id: SatisfiableField<u16> },
    CombatantIsStunned { combatant_id: SatisfiableField<u64> },
}

/// The mathematical model of a [`BeliefTest`].
pub enum BeliefTestView {
    ScannedEnvironment { tick: FieldTest<u32> },
    BallPosition { ball_id: FieldTest<u16> },
    CombatantPosition { combatant_id: FieldTest<u64> },
    PlatePosition { plate_id: FieldTest<u64> },
    OnPlate { plate_id: FieldTest<u64>, combatant_id: FieldTest<u64> },
    HeldBall { ball_id: FieldTest<u16>, combatant_id: FieldTest<u64> },
    InBallPickupRange { ball_id: FieldTest<u16>, combatant_id: FieldTest<u64> },
    CanReachCombatant { self_combatant_id: FieldTest<u64>, target_combatant_id: FieldTest<u64> },
    BallThrownAtCombatant { ball_id: FieldTest<u16>, thrower_combatant_id: FieldTest<u64>, target_combatant_id: FieldTest<u64>, target_on_plate: FieldTest<Option<u64>> },
    BallIsFlying { ball_id: FieldTest<u16> },
    DirectLineOfSightToCombatant { self_combatant_id: FieldTest<u64>, other_combatant_id: FieldTest<u64> },
    CombatantShoved { combatant_id: FieldTest<u64>, on_plate: FieldTest<Option<u64>> },
    BallCaught { combatant_id: FieldTest<u64>, thrower_id: FieldTest<u64>, ball_id: FieldTest<u16> },
    CombatantIsStunned { combatant_id: FieldTest<u64> },
}

impl View for BeliefTest {
    type V = BeliefTestView;

    open spec fn view(&self) -> BeliefTestView {
        match *self {
            BeliefTest::ScannedEnvironment { tick } => BeliefTestView::ScannedEnvironment { tick: tick@ },
            BeliefTest::BallPosition { ball_id } => BeliefTestView::BallPosition { ball_id: ball_id@ },
            BeliefTest::CombatantPosition { combatant_id } => BeliefTestView::CombatantPosition { combatant_id: combatant_id@ },
            BeliefTest::PlatePosition { plate_id } => BeliefTestView::PlatePosition { plate_id: plate_id@ },
            BeliefTest::OnPlate { plate_id, combatant_id } => BeliefTestView::OnPlate { plate_id: plate_id@, combatant_id: combatant_id@ },
            BeliefTest::HeldBall { ball_id, combatant_id } => BeliefTestView::HeldBall { ball_id: ball_id@, combatant_id: combatant_id@ },
            BeliefTest::InBallPickupRange { ball_id, combatant_id } => BeliefTestView::InBallPickupRange { ball_id: ball_id@, combatant_id: combatant_id@ },
            BeliefTest::CanReachCombatant { self_combatant_id, target_combatant_id } => BeliefTestView::CanReachCombatant { self_combatant_id: self_combatant_id@, target_combatant_id: target_combatant_id@ },
            BeliefTest::BallThrownAtCombatant { ball_id, thrower_combatant_id, target_combatant_id, target_on_plate } => BeliefTestView::BallThrownAtCombatant { ball_id: ball_id@, thrower_combatant_id: thrower_combatant_id@, target_combatant_id: target_combatant_id@, target_on_plate: target_on_plate@ },
            BeliefTest::BallIsFlying { ball_id } => BeliefTestView::BallIsFlying { ball_id: ball_id@ },
            BeliefTest::DirectLineOfSightToCombatant { self_combatant_id, other_combatant_id } => BeliefTestView::DirectLineOfSightToCombatant { self_combatant_id: self_combatant_id@, other_combatant_id: other_combatant_id@ },
            BeliefTest::CombatantShoved { combatant_id, on_plate } => BeliefTestView::CombatantShoved { combatant_id: combatant_id@, on_plate: on_plate@ },
            BeliefTest::BallCaught { combatant_id, thrower_id, ball_id } => BeliefTestView::BallCaught { combatant_id: combatant_id@, thrower_id: thrower_id@, ball_id: ball_id@ },
            BeliefTest::CombatantIsStunned { combatant_id } => BeliefTestView::CombatantIsStunned { combatant_id: combatant_id@ },
        }
    }
}

/// The position of a test's variant in the list of belief variants.
pub open spec fn test_variant(t: BeliefTestView) -> nat {
    match t {
        BeliefTestView::ScannedEnvironment { .. } => 0,
        BeliefTestView::BallPosition { .. } => 1,
        BeliefTestView::CombatantPosition { .. } => 2,
        BeliefTestView::PlatePosition { .. } => 3,
        BeliefTestView::OnPlate { .. } => 4,
        BeliefTestView::HeldBall { .. } => 5,
        BeliefTestView::InBallPickupRange { .. } => 6,
        BeliefTestView::CanReachCombatant { .. } => 7,
        BeliefTestView::BallThrownAtCombatant { .. } => 8,
        BeliefTestView::BallIsFlying { .. } => 9,
        BeliefTestView::DirectLineOfSightToCombatant { .. } => 10,
        BeliefTestView::CombatantShoved { .. } => 11,
        BeliefTestView::BallCaught { .. } => 12,
        BeliefTestView::CombatantIsStunned { .. } => 13,
    }
}

/// Whether the test `t` passes the belief `b`: the variants agree and every field test passes.
pub open spec fn test_passes(t: BeliefTestView, b: Belief) -> bool {
    match (t, b) {
        (BeliefTestView::ScannedEnvironment { tick: t_tick }, Belief::ScannedEnvironment { tick, .. }) => field_satisfied(t_tick, tick),
        (BeliefTestView::BallPosition { ball_id: t_ball_id }, Belief::BallPosition { ball_id, .. }) => field_satisfied(t_ball_id, ball_id),
        (BeliefTestView::CombatantPosition { combatant_id: t_combatant_id }, Belief::CombatantPosition { combatant_id, .. }) => field_satisfied(t_combatant_id, combatant_id),
        (BeliefTestView::PlatePosition { plate_id: t_plate_id }, Belief::PlatePosition { plate_id, .. }) => field_satisfied(t_plate_id, plate_id),
        (BeliefTestView::OnPlate { plate_id: t_plate_id, combatant_id: t_combatant_id }, Belief::OnPlate { plate_id, combatant_id, .. }) => field_satisfied(t_plate_id, plate_id) && field_satisfied(t_combatant_id, combatant_id),
        (BeliefTestView::HeldBall { ball_id: t_ball_id, combatant_id: t_combatant_id }, Belief::HeldBall { ball_id, combatant_id, .. }) => field_satisfied(t_ball_id, ball_id) && field_satisfied(t_combatant_id, combatant_id),
        (BeliefTestView::InBallPickupRange { ball_id: t_ball_id, combatant_id: t_combatant_id }, Belief::InBallPickupRange { ball_id, combatant_id, .. }) => field_satisfied(t_ball_id, ball_id) && field_satisfied(t_combatant_id, combatant_id),
        (BeliefTestView::CanReachCombatant { self_combatant_id: t_self_combatant_id, target_combatant_id: t_target_combatant_id }, Belief::CanReachCombatant { self_combatant_id, target_combatant_id, .. }) => field_satisfied(t_self_combatant_id, self_combatant_id) && field_satisfied(t_target_combatant_id, target_combatant_id),
        (BeliefTestView::BallThrownAtCombatant { ball_id: t_ball_id, thrower_combatant_id: t_thrower_combatant_id, target_combatant_id: t_target_combatant_id, target_on_plate: t_target_on_plate }, Belief::BallThrownAtCombatant { ball_id, thrower_combatant_id, target_combatant_id, target_on_plate, .. }) => field_satisfied(t_ball_id, ball_id) && field_satisfied(t_thrower_combatant_id, thrower_combatant_id) && field_satisfied(t_target_combatant_id, target_combatant_id) && field_satisfied(t_target_on_plate, target_on_plate),
        (BeliefTestView::BallIsFlying { ball_id: t_ball_id }, Belief::BallIsFlying { ball_id, .. }) => field_satisfied(t_ball_id, ball_id),
        (BeliefTestView::DirectLineOfSightToCombatant { self_combatant_id: t_self_combatant_id, other_combatant_id: t_other_combatant_id }, Belief::DirectLineOfSightToCombatant { self_combatant_id, other_combatant_id, .. }) => field_satisfied(t_self_combatant_id, self_combatant_id) && field_satisfied(t_other_combatant_id, other_combatant_id),
        (BeliefTestView::CombatantShoved { combatant_id: t_combatant_id, on_plate: t_on_plate }, Belief::CombatantShoved { combatant_id, on_plate, .. }) => field_satisfied(t_combatant_id, combatant_id) && field_satisfied(t_on_plate, on_plate),
        (BeliefTestView::BallCaught { combatant_id: t_combatant_id, thrower_id: t_thrower_id, ball_id: t_ball_id }, Belief::BallCaught { combatant_id, thrower_id, ball_id, .. }) => field_satisfied(t_combatant_id, combatant_id) && field_satisfied(t_thrower_id, thrower_id) && field_satisfied(t_ball_id, ball_id),
        (BeliefTestView::CombatantIsStunned { combatant_id: t_combatant_id }, Belief::CombatantIsStunned { combatant_id, .. }) => field_satisfied(t_combatant_id, combatant_id),
        _ => false,
    }
}

impl BeliefTest {
    /// Does the belief have this test's variant?
    pub fn same_variant(&self, belief: &Belief) -> (r: bool)
        ensures
            r == (test_variant(self@) == belief_variant(*belief)),
    {
        match (self, belief) {
            (BeliefTest::ScannedEnvironment { .. }, Belief::ScannedEnvironment { .. }) => true,
            (BeliefTest::BallPosition { .. }, Belief::BallPosition { .. }) => true,
            (BeliefTest::CombatantPosition { .. }, Belief::CombatantPosition { .. }) => true,
            (BeliefTest::PlatePosition { .. }, Belief::PlatePosition { .. }) => true,
            (BeliefTest::OnPlate { .. }, Belief::OnPlate { .. }) => true,
            (BeliefTest::HeldBall { .. }, Belief::HeldBall { .. }) => true,
            (BeliefTest::InBallPickupRange { .. }, Belief::InBallPickupRange { .. }) => true,
            (BeliefTest::CanReachCombatant { .. }, Belief::CanReachCombatant { .. }) => true,
            (BeliefTest::BallThrownAtCombatant { .. }, Belief::BallThrownAtCombatant { .. }) => true,
            (BeliefTest::BallIsFlying { .. }, Belief::BallIsFlying { .. }) => true,
            (BeliefTest::DirectLineOfSightToCombatant { .. }, Belief::DirectLineOfSightToCombatant { .. }) => true,
            (BeliefTest::CombatantShoved { .. }, Belief::CombatantShoved { .. }) => true,
            (BeliefTest::BallCaught { .. }, Belief::BallCaught { .. }) => true,
            (BeliefTest::CombatantIsStunned { .. }, Belief::CombatantIsStunned { .. }) => true,
            _ => false,
        }
    }

    /// Does the belief pass this test?
    pub fn passes(&self, belief: &Belief) -> (r: bool)
        ensures
            r == test_passes(self@, *belief),
    {
        match (self, belief) {
            (BeliefTest::ScannedEnvironment { tick: t_tick }, Belief::ScannedEnvironment { tick, .. }) => t_tick.satisfied_by(tick),
            (BeliefTest::BallPosition { ball_id: t_ball_id }, Belief::BallPosition { ball_id, .. }) => t_ball_id.satisfied_by(ball_id),
            (BeliefTest::CombatantPosition { combatant_id: t_combatant_id }, Belief::CombatantPosition { combatant_id, .. }) => t_combatant_id.satisfied_by(combatant_id),
            (BeliefTest::PlatePosition { plate_id: t_plate_id }, Belief::PlatePosition { plate_id, .. }) => t_plate_id.satisfied_by(plate_id),
            (BeliefTest::OnPlate { plate_id: t_plate_id, combatant_id: t_combatant_id }, Belief::OnPlate { plate_id, combatant_id, .. }) => t_plate_id.satisfied_by(plate_id) && t_combatant_id.satisfied_by(combatant_id),
            (BeliefTest::HeldBall { ball_id: t_ball_id, combatant_id: t_combatant_id }, Belief::HeldBall { ball_id, combatant_id, .. }) => t_ball_id.satisfied_by(ball_id) && t_combatant_id.satisfied_by(combatant_id),
            (BeliefTest::InBallPickupRange { ball_id: t_ball_id, combatant_id: t_combatant_id }, Belief::InBallPickupRange { ball_id, combatant_id, .. }) => t_ball_id.satisfied_by(ball_id) && t_combatant_id.satisfied_by(combatant_id),
            (BeliefTest::CanReachCombatant { self_combatant_id: t_self_combatant_id, target_combatant_id: t_target_combatant_id }, Belief::CanReachCombatant { self_combatant_id, target_combatant_id, .. }) => t_self_combatant_id.satisfied_by(self_combatant_id) && t_target_combatant_id.satisfied_by(target_combatant_id),
            (BeliefTest::BallThrownAtCombatant { ball_id: t_ball_id, thrower_combatant_id: t_thrower_combatant_id, target_combatant_id: t_target_combatant_id, target_on_plate: t_target_on_plate }, Belief::BallThrownAtCombatant { ball_id, thrower_combatant_id, target_combatant_id, target_on_plate, .. }) => t_ball_id.satisfied_by(ball_id) && t_thrower_combatant_id.satisfied_by(thrower_combatant_id) && t_target_combatant_id.satisfied_by(target_combatant_id) && t_target_on_plate.satisfied_by(target_on_plate),
            (BeliefTest::BallIsFlying { ball_id: t_ball_id }, Belief::BallIsFlying { ball_id, .. }) => t_ball_id.satisfied_by(ball_id),
            (BeliefTest::DirectLineOfSightToCombatant { self_combatant_id: t_self_combatant_id, other_combatant_id: t_other_combatant_id }, Belief::DirectLineOfSightToCombatant { self_combatant_id, other_combatant_id, .. }) => t_self_combatant_id.satisfied_by(self_combatant_id) && t_other_combatant_id.satisfied_by(other_combatant_id),
            (BeliefTest::CombatantShoved { combatant_id: t_combatant_id, on_plate: t_on_plate }, Belief::CombatantShoved { combatant_id, on_plate, .. }) => t_combatant_id.satisfied_by(combatant_id) && t_on_plate.satisfied_by(on_plate),
            (BeliefTest::BallCaught { combatant_id: t_combatant_id, thrower_id: t_thrower_id, ball_id: t_ball_id }, Belief::BallCaught { combatant_id, thrower_id, ball_id, .. }) => t_combatant_id.satisfied_by(combatant_id) && t_thrower_id.satisfied_by(thrower_id) && t_ball_id.satisfied_by(ball_id),
            (BeliefTest::CombatantIsStunned { combatant_id: t_combatant_id }, Belief::CombatantIsStunned { combatant_id, .. }) => t_combatant_id.satisfied_by(combatant_id),
            _ => false,
        }
    }

    /// A copy of this test.
    pub fn duplicate(&self) -> (r: BeliefTest)
        ensures
            r@ == self@,
    {
        match self {
            BeliefTest::ScannedEnvironment { tick } => BeliefTest::ScannedEnvironment { tick: tick.duplicate() },
            BeliefTest::BallPosition { ball_id } => BeliefTest::BallPosition { ball_id: ball_id.duplicate() },
            BeliefTest::CombatantPosition { combatant_id } => BeliefTest::CombatantPosition { combatant_id: combatant_id.duplicate() },
            BeliefTest::PlatePosition { plate_id } => BeliefTest::PlatePosition { plate_id: plate_id.duplicate() },
            BeliefTest::OnPlate { plate_id, combatant_id } => BeliefTest::OnPlate { plate_id: plate_id.duplicate(), combatant_id: combatant_id.duplicate() },
            BeliefTest::HeldBall { ball_id, combatant_id } => BeliefTest::HeldBall { ball_id: ball_id.duplicate(), combatant_id: combatant_id.duplicate() },
            BeliefTest::InBallPickupRange { ball_id, combatant_id } => BeliefTest::InBallPickupRange { ball_id: ball_id.duplicate(), combatant_id: combatant_id.duplicate() },
            BeliefTest::CanReachCombatant { self_combatant_id, target_combatant_id } => BeliefTest::CanReachCombatant { self_combatant_id: self_combatant_id.duplicate(), target_combatant_id: target_combatant_id.duplicate() },
            BeliefTest::BallThrownAtCombatant { ball_id, thrower_combatant_id, target_combatant_id, target_on_plate } => BeliefTest::BallThrownAtCombatant { ball_id: ball_id.duplicate(), thrower_combatant_id: thrower_combatant_id.duplicate(), target_combatant_id: target_combatant_id.duplicate(), target_on_plate: target_on_plate.duplicate() },
            BeliefTest::BallIsFlying { ball_id } => BeliefTest::BallIsFlying { ball_id: ball_id.duplicate() },
            BeliefTest::DirectLineOfSightToCombatant { self_combatant_id, other_combatant_id } => BeliefTest::DirectLineOfSightToCombatant { self_combatant_id: self_combatant_id.duplicate(), other_combatant_id: other_combatant_id.duplicate() },
            BeliefTest::CombatantShoved { combatant_id, on_plate } => BeliefTest::CombatantShoved { combatant_id: combatant_id.duplicate(), on_plate: on_plate.duplicate() },
            BeliefTest::BallCaught { combatant_id, thrower_id, ball_id } => BeliefTest::BallCaught { combatant_id: combatant_id.duplicate(), thrower_id: thrower_id.duplicate(), ball_id: ball_id.duplicate() },
            BeliefTest::CombatantIsStunned { combatant_id } => BeliefTest::CombatantIsStunned { combatant_id: combatant_id.duplicate() },
        }
    }

    /// Sets the `tick` test of a test whose variant has that field; a test of another
    /// variant comes back unchanged.
    pub fn tick(self, value: SatisfiableField<u32>) -> (r: BeliefTest)
        ensures
            r@ == spec_set_tick(self@, value@),
    {
        match self {
            BeliefTest::ScannedEnvironment { tick } => BeliefTest::ScannedEnvironment { tick: value },
            _ => self,
        }
    }

    /// Sets the `ball_id` test of a test whose variant has that field; a test of another
    /// variant comes back unchanged.
    pub fn ball_id(self, value: SatisfiableField<u16>) -> (r: BeliefTest)
        ensures
            r@ == spec_set_ball_id(self@, value@),
    {
        match self {
            BeliefTest::BallPosition { ball_id } => BeliefTest::BallPosition { ball_id: value },
            BeliefTest::HeldBall { ball_id, combatant_id } => BeliefTest::HeldBall { ball_id: value, combatant_id },
            BeliefTest::InBallPickupRange { ball_id, combatant_id } => BeliefTest::InBallPickupRange { ball_id: value, combatant_id },
            BeliefTest::BallThrownAtCombatant { ball_id, thrower_combatant_id, target_combatant_id, target_on_plate } => BeliefTest::BallThrownAtCombatant { ball_id: value, thrower_combatant_id, target_combatant_id, target_on_plate },
            BeliefTest::BallIsFlying { ball_id } => BeliefTest::BallIsFlying { ball_id: value },
            BeliefTest::BallCaught { combatant_id, thrower_id, ball_id } => BeliefTest::BallCaught { combatant_id, thrower_id, ball_id: value },
            _ => self,
        }
    }

    /// Sets the `combatant_id` test of a test whose variant has that field; a test of another
    /// variant comes back unchanged.
    pub fn combatant_id(self, value: SatisfiableField<u64>) -> (r: BeliefTest)
        ensures
            r@ == spec_set_combatant_id(self@, value@),
    {
        match self {
            BeliefTest::CombatantPosition { combatant_id } => BeliefTest::CombatantPosition { combatant_id: value },
            BeliefTest::OnPlate { plate_id, combatant_id } => BeliefTest::OnPlate { plate_id, combatant_id: value },
            BeliefTest::HeldBall { ball_id, combatant_id } => BeliefTest::HeldBall { ball_id, combatant_id: value },
            BeliefTest::InBallPickupRange { ball_id, combatant_id } => BeliefTest::InBallPickupRange { ball_id, combatant_id: value },
            BeliefTest::CombatantShoved { combatant_id, on_plate } => BeliefTest::CombatantShoved { combatant_id: value, on_plate },
            BeliefTest::BallCaught { combatant_id, thrower_id, ball_id } => BeliefTest::BallCaught { combatant_id: value, thrower_id, ball_id },
            BeliefTest::CombatantIsStunned { combatant_id } => BeliefTest::CombatantIsStunned { combatant_id: value },
            _ => self,
        }
    }

    /// Sets the `plate_id` test of a test whose variant has that field; a test of another
    /// variant comes back unchanged.
    pub fn plate_id(self, value: SatisfiableField<u64>) -> (r: BeliefTest)
        ensures
            r@ == spec_set_plate_id(self@, value@),
    {
        match self {
            BeliefTest::PlatePosition { plate_id } => BeliefTest::PlatePosition { plate_id: value },
            BeliefTest::OnPlate { plate_id, combatant_id } => BeliefTest::OnPlate { plate_id: value, combatant_id },
            _ => self,
        }
    }

    /// Sets the `self_combatant_id` test of a test whose variant has that field; a test of another
    /// variant comes back unchanged.
    pub fn self_combatant_id(self, value: SatisfiableField<u64>) -> (r: BeliefTest)
        ensures
            r@ == spec_set_self_combatant_id(self@, value@),
    {
        match self {
            BeliefTest::CanReachCombatant { self_combatant_id, target_combatant_id } => BeliefTest::CanReachCombatant { self_combatant_id: value, target_combatant_id },
            BeliefTest::DirectLineOfSightToCombatant { self_combatant_id, other_combatant_id } => BeliefTest::DirectLineOfSightToCombatant { self_combatant_id: value, other_combatant_id },
            _ => self,
        }
    }

    /// Sets the `target_combatant_id` test of a test whose variant has that field; a test of another
    /// variant comes back unchanged.
    pub fn target_combatant_id(self, value: SatisfiableField<u64>) -> (r: BeliefTest)
        ensures
            r@ == spec_set_target_combatant_id(self@, value@),
    {
        match self {
            BeliefTest::CanReachCombatant { self_combatant_id, target_combatant_id } => BeliefTest::CanReachCombatant { self_combatant_id, target_combatant_id: value },
            BeliefTest::BallThrownAtCombatant { ball_id, thrower_combatant_id, target_combatant_id, target_on_plate } => BeliefTest::BallThrownAtCombatant { ball_id, thrower_combatant_id, target_combatant_id: value, target_on_plate },
            _ => self,
        }
    }

    /// Sets the `thrower_combatant_id` test of a test whose variant has that field; a test of another
    /// variant comes back unchanged.
    pub fn thrower_combatant_id(self, value: SatisfiableField<u64>) -> (r: BeliefTest)
        ensures
            r@ == spec_set_thrower_combatant_id(self@, value@),
    {
        match self {
            BeliefTest::BallThrownAtCombatant { ball_id, thrower_combatant_id, target_combatant_id, target_on_plate } => BeliefTest::BallThrownAtCombatant { ball_id, thrower_combatant_id: value, target_combatant_id, target_on_plate },
            _ => self,
        }
    }

    /// Sets the `target_on_plate` test of a test whose variant has that field; a test of another
    /// variant comes back unchanged.
    pub fn target_on_plate(self, value: SatisfiableField<Option<u64>>) -> (r: BeliefTest)
        ensures
            r@ == spec_set_target_on_plate(self@, value@),
    {
        match self {
            BeliefTest::BallThrownAtCombatant { ball_id, thrower_combatant_id, target_combatant_id, target_on_plate } => BeliefTest::BallThrownAtCombatant { ball_id, thrower_combatant_id, target_combatant_id, target_on_plate: value },
            _ => self,
        }
    }

    /// Sets the `other_combatant_id` test of a test whose variant has that field; a test of another
    /// variant comes back unchanged.
    pub fn other_combatant_id(self, value: SatisfiableField<u64>) -> (r: BeliefTest)
        ensures
            r@ == spec_set_other_combatant_id(self@, value@),
    {
        match self {
            BeliefTest::DirectLineOfSightToCombatant { self_combatant_id, other_combatant_id } => BeliefTest::DirectLineOfSightToCombatant { self_combatant_id, other_combatant_id: value },
            _ => self,
        }
    }

    /// Sets the `on_plate` test of a test whose variant has that field; a test of another
    /// variant comes back unchanged.
    pub fn on_plate(self, value: SatisfiableField<Option<u64>>) -> (r: BeliefTest)
        ensures
            r@ == spec_set_on_plate(self@, value@),
    {
        match self {
            BeliefTest::CombatantShoved { combatant_id, on_plate } => BeliefTest::CombatantShoved { combatant_id, on_plate: value },
            _ => self,
        }
    }

    /// Sets the `thrower_id` test of a test whose variant has that field; a test of another
    /// variant comes back unchanged.
    pub fn thrower_id(self, value: SatisfiableField<u64>) -> (r: BeliefTest)
        ensures
            r@ == spec_set_thrower_id(self@, value@),
    {
        match self {
            BeliefTest::BallCaught { combatant_id, thrower_id, ball_id } => BeliefTest::BallCaught { combatant_id, thrower_id: value, ball_id },
            _ => self,
        }
    }

}

/// The test `t` with its `tick` test replaced, where its variant has that field.
pub open spec fn spec_set_tick(t: BeliefTestView, value: FieldTest<u32>) -> BeliefTestView {
    match t {
        BeliefTestView::ScannedEnvironment { tick } => BeliefTestView::ScannedEnvironment { tick: value },
        _ => t,
    }
}

/// The test `t` with its `ball_id` test replaced, where its variant has that field.
pub open spec fn spec_set_ball_id(t: BeliefTestView, value: FieldTest<u16>) -> BeliefTestView {
    match t {
        BeliefTestView::BallPosition { ball_id } => BeliefTestView::BallPosition { ball_id: value },
        BeliefTestView::HeldBall { ball_id, combatant_id } => BeliefTestView::HeldBall { ball_id: value, combatant_id },
        BeliefTestView::InBallPickupRange { ball_id, combatant_id } => BeliefTestView::InBallPickupRange { ball_id: value, combatant_id },
        BeliefTestView::BallThrownAtCombatant { ball_id, thrower_combatant_id, target_combatant_id, target_on_plate } => BeliefTestView::BallThrownAtCombatant { ball_id: value, thrower_combatant_id, target_combatant_id, target_on_plate },
        BeliefTestView::BallIsFlying { ball_id } => BeliefTestView::BallIsFlying { ball_id: value },
        BeliefTestView::BallCaught { combatant_id, thrower_id, ball_id } => BeliefTestView::BallCaught { combatant_id, thrower_id, ball_id: value },
        _ => t,
    }
}

/// The test `t` with its `combatant_id` test replaced, where its variant has that field.
pub open spec fn spec_set_combatant_id(t: BeliefTestView, value: FieldTest<u64>) -> BeliefTestView {
    match t {
        BeliefTestView::CombatantPosition { combatant_id } => BeliefTestView::CombatantPosition { combatant_id: value },
        BeliefTestView::OnPlate { plate_id, combatant_id } => BeliefTestView::OnPlate { plate_id, combatant_id: value },
        BeliefTestView::HeldBall { ball_id, combatant_id } => BeliefTestView::HeldBall { ball_id, combatant_id: value },
        BeliefTestView::InBallPickupRange { ball_id, combatant_id } => BeliefTestView::InBallPickupRange { ball_id, combatant_id: value },
        BeliefTestView::CombatantShoved { combatant_id, on_plate } => BeliefTestView::CombatantShoved { combatant_id: value, on_plate },
        BeliefTestView::BallCaught { combatant_id, thrower_id, ball_id } => BeliefTestView::BallCaught { combatant_id: value, thrower_id, ball_id },
        BeliefTestView::CombatantIsStunned { combatant_id } => BeliefTestView::CombatantIsStunned { combatant_id: value },
        _ => t,
    }
}

/// The test `t` with its `plate_id` test replaced, where its variant has that field.
pub open spec fn spec_set_plate_id(t: BeliefTestView, value: FieldTest<u64>) -> BeliefTestView {
    match t {
        BeliefTestView::PlatePosition { plate_id } => BeliefTestView::PlatePosition { plate_id: value },
        BeliefTestView::OnPlate { plate_id, combatant_id } => BeliefTestView::OnPlate { plate_id: value, combatant_id },
        _ => t,
    }
}

/// The test `t` with its `self_combatant_id` test replaced, where its variant has that field.
pub open spec fn spec_set_self_combatant_id(t: BeliefTestView, value: FieldTest<u64>) -> BeliefTestView {
    match t {
        BeliefTestView::CanReachCombatant { self_combatant_id, target_combatant_id } => BeliefTestView::CanReachCombatant { self_combatant_id: value, target_combatant_id },
        BeliefTestView::DirectLineOfSightToCombatant { self_combatant_id, other_combatant_id } => BeliefTestView::DirectLineOfSightToCombatant { self_combatant_id: value, other_combatant_id },
        _ => t,
    }
}

/// The test `t` with its `target_combatant_id` test replaced, where its variant has that field.
pub open spec fn spec_set_target_combatant_id(t: BeliefTestView, value: FieldTest<u64>) -> BeliefTestView {
    match t {
        BeliefTestView::CanReachCombatant { self_combatant_id, target_combatant_id } => BeliefTestView::CanReachCombatant { self_combatant_id, target_combatant_id: value },
        BeliefTestView::BallThrownAtCombatant { ball_id, thrower_combatant_id, target_combatant_id, target_on_plate } => BeliefTestView::BallThrownAtCombatant { ball_id, thrower_combatant_id, target_combatant_id: value, target_on_plate },
        _ => t,
    }
}

/// The test `t` with its `thrower_combatant_id` test replaced, where its variant has that field.
pub open spec fn spec_set_thrower_combatant_id(t: BeliefTestView, value: FieldTest<u64>) -> BeliefTestView {
    match t {
        BeliefTestView::BallThrownAtCombatant { ball_id, thrower_combatant_id, target_combatant_id, target_on_plate } => BeliefTestView::BallThrownAtCombatant { ball_id, thrower_combatant_id: value, target_combatant_id, target_on_plate },
        _ => t,
    }
}

/// The test `t` with its `target_on_plate` test replaced, where its variant has that field.
pub open spec fn spec_set_target_on_plate(t: BeliefTestView, value: FieldTest<Option<u64>>) -> BeliefTestView {
    match t {
        BeliefTestView::BallThrownAtCombatant { ball_id, thrower_combatant_id, target_combatant_id, target_on_plate } => BeliefTestView::BallThrownAtCombatant { ball_id, thrower_combatant_id, target_combatant_id, target_on_plate: value },
        _ => t,
    }
}

/// The test `t` with its `other_combatant_id` test replaced, where its variant has that field.
pub open spec fn spec_set_other_combatant_id(t: BeliefTestView, value: FieldTest<u64>) -> BeliefTestView {
    match t {
        BeliefTestView::DirectLineOfSightToCombatant { self_combatant_id, other_combatant_id } => BeliefTestView::DirectLineOfSightToCombatant { self_combatant_id, other_combatant_id: value },
        _ => t,
    }
}

/// The test `t` with its `on_plate` test replaced, where its variant has that field.
pub open spec fn spec_set_on_plate(t: BeliefTestView, value: FieldTest<Option<u64>>) -> BeliefTestView {
    match t {
        BeliefTestView::CombatantShoved { combatant_id, on_plate } => BeliefTestView::CombatantShoved { combatant_id, on_plate: value },
        _ => t,
    }
}

/// The test `t` with its `thrower_id` test replaced, where its variant has that field.
pub open spec fn spec_set_thrower_id(t: BeliefTestView, value: FieldTest<u64>) -> BeliefTestView {
    match t {
        BeliefTestView::BallCaught { combatant_id, thrower_id, ball_id } => BeliefTestView::BallCaught { combatant_id, thrower_id: value, ball_id },
        _ => t,
    }
}

/// Starting points for belief tests: one test per belief variant, ignoring every field.
pub struct SatisfiableBelief;

#[allow(non_snake_case)]
impl SatisfiableBelief {
    /// A test on `ScannedEnvironment` beliefs that ignores every field.
    pub fn ScannedEnvironment() -> (r: BeliefTest)
        ensures
            r@ == (BeliefTestView::ScannedEnvironment { tick: FieldTest::Ignore }),
    {
        BeliefTest::ScannedEnvironment { tick: SatisfiableField::Ignore }
    }

    /// A test on `BallPosition` beliefs that ignores every field.
    pub fn BallPosition() -> (r: BeliefTest)
        ensures
            r@ == (BeliefTestView::BallPosition { ball_id: FieldTest::Ignore }),
    {
        BeliefTest::BallPosition { ball_id: SatisfiableField::Ignore }
    }

    /// A test on `CombatantPosition` beliefs that ignores every field.
    pub fn CombatantPosition() -> (r: BeliefTest)
        ensures
            r@ == (BeliefTestView::CombatantPosition { combatant_id: FieldTest::Ignore }),
    {
        BeliefTest::CombatantPosition { combatant_id: SatisfiableField::Ignore }
    }

    /// A test on `PlatePosition` beliefs that ignores every field.
    pub fn PlatePosition() -> (r: BeliefTest)
        ensures
            r@ == (BeliefTestView::PlatePosition { plate_id: FieldTest::Ignore }),
    {
        BeliefTest::PlatePosition { plate_id: SatisfiableField::Ignore }
    }

    /// A test on `OnPlate` beliefs that ignores every field.
    pub fn OnPlate() -> (r: BeliefTest)
        ensures
            r@ == (BeliefTestView::OnPlate { plate_id: FieldTest::Ignore, combatant_id: FieldTest::Ignore }),
    {
        BeliefTest::OnPlate { plate_id: SatisfiableField::Ignore, combatant_id: SatisfiableField::Ignore }
    }

    /// A test on `HeldBall` beliefs that ignores every field.
    pub fn HeldBall() -> (r: BeliefTest)
        ensures
            r@ == (BeliefTestView::HeldBall { ball_id: FieldTest::Ignore, combatant_id: FieldTest::Ignore }),
    {
        BeliefTest::HeldBall { ball_id: SatisfiableField::Ignore, combatant_id: SatisfiableField::Ignore }
    }

    /// A test on `InBallPickupRange` beliefs that ignores every field.
    pub fn InBallPickupRange() -> (r: BeliefTest)
        ensures
            r@ == (BeliefTestView::InBallPickupRange { ball_id: FieldTest::Ignore, combatant_id: FieldTest::Ignore }),
    {
        BeliefTest::InBallPickupRange { ball_id: SatisfiableField::Ignore, combatant_id: SatisfiableField::Ignore }
    }

    /// A test on `CanReachCombatant` beliefs that ignores every field.
    pub fn CanReachCombatant() -> (r: BeliefTest)
        ensures
            r@ == (BeliefTestView::CanReachCombatant { self_combatant_id: FieldTest::Ignore, target_combatant_id: FieldTest::Ignore }),
    {
        BeliefTest::CanReachCombatant { self_combatant_id: SatisfiableField::Ignore, target_combatant_id: SatisfiableField::Ignore }
    }

    /// A test on `BallThrownAtCombatant` beliefs that ignores every field.
    pub fn BallThrownAtCombatant() -> (r: BeliefTest)
        ensures
            r@ == (BeliefTestView::BallThrownAtCombatant { ball_id: FieldTest::Ignore, thrower_combatant_id: FieldTest::Ignore, target_combatant_id: FieldTest::Ignore, target_on_plate: FieldTest::Ignore }),
    {
        BeliefTest::BallThrownAtCombatant { ball_id: SatisfiableField::Ignore, thrower_combatant_id: SatisfiableField::Ignore, target_combatant_id: SatisfiableField::Ignore, target_on_plate: SatisfiableField::Ignore }
    }

    /// A test on `BallIsFlying` beliefs that ignores every field.
    pub fn BallIsFlying() -> (r: BeliefTest)
        ensures
            r@ == (BeliefTestView::BallIsFlying { ball_id: FieldTest::Ignore }),
    {
        BeliefTest::BallIsFlying { ball_id: SatisfiableField::Ignore }
    }

    /// A test on `DirectLineOfSightToCombatant` beliefs that ignores every field.
    pub fn DirectLineOfSightToCombatant() -> (r: BeliefTest)
        ensures
            r@ == (BeliefTestView::DirectLineOfSightToCombatant { self_combatant_id: FieldTest::Ignore, other_combatant_id: FieldTest::Ignore }),
    {
        BeliefTest::DirectLineOfSightToCombatant { self_combatant_id: SatisfiableField::Ignore, other_combatant_id: SatisfiableField::Ignore }
    }

    /// A test on `CombatantShoved` beliefs that ignores every field.
    pub fn CombatantShoved() -> (r: BeliefTest)
        ensures
            r@ == (BeliefTestView::CombatantShoved { combatant_id: FieldTest::Ignore, on_plate: FieldTest::Ignore }),
    {
        BeliefTest::CombatantShoved { combatant_id: SatisfiableField::Ignore, on_plate: SatisfiableField::Ignore }
    }

    /// A test on `BallCaught` beliefs that ignores every field.
    pub fn BallCaught() -> (r: BeliefTest)
        ensures
            r@ == (BeliefTestView::BallCaught { combatant_id: FieldTest::Ignore, thrower_id: FieldTest::Ignore, ball_id: FieldTest::Ignore }),
    {
        BeliefTest::BallCaught { combatant_id: SatisfiableField::Ignore, thrower_id: SatisfiableField::Ignore, ball_id: SatisfiableField::Ignore }
    }

    /// A test on `CombatantIsStunned` beliefs that ignores every field.
    pub fn CombatantIsStunned() -> (r: BeliefTest)
        ensures
            r@ == (BeliefTestView::CombatantIsStunned { combatant_id: FieldTest::Ignore }),
    {
        BeliefTest::CombatantIsStunned { combatant_id: SatisfiableField::Ignore }
    }

}

/// The identity of a belief for de-duplication: its variant and the fields that mark
/// it unique, in declaration order, each widened to `u64` (unused positions hold 0).
#[derive(Clone, Copy, Debug, PartialEq, Eq, Structural)]
pub struct BeliefKey {
    pub variant: u8,
    pub first: u64,
    pub second: u64,
    pub third: u64,
}

/// The unique key of a belief.
pub open spec fn belief_key(b: Belief) -> BeliefKey {
    match b {
        Belief::ScannedEnvironment { tick, .. } => BeliefKey { variant: 0u8, first: tick as u64, second: 0u64, third: 0u64 },
        Belief::BallPosition { ball_id, .. } => BeliefKey { variant: 1u8, first: ball_id as u64, second: 0u64, third: 0u64 },
        Belief::CombatantPosition { combatant_id, .. } => BeliefKey { variant: 2u8, first: combatant_id as u64, second: 0u64, third: 0u64 },
        Belief::PlatePosition { plate_id, .. } => BeliefKey { variant: 3u8, first: plate_id as u64, second: 0u64, third: 0u64 },
        Belief::OnPlate { plate_id, combatant_id, .. } => BeliefKey { variant: 4u8, first: plate_id as u64, second: combatant_id as u64, third: 0u64 },
        Belief::HeldBall { ball_id, combatant_id, .. } => BeliefKey { variant: 5u8, first: ball_id as u64, second: combatant_id as u64, third: 0u64 },
        Belief::InBallPickupRange { ball_id, combatant_id, .. } => BeliefKey { variant: 6u8, first: ball_id as u64, second: combatant_id as u64, third: 0u64 },
        Belief::CanReachCombatant { self_combatant_id, target_combatant_id, .. } => BeliefKey { variant: 7u8, first: self_combatant_id as u64, second: target_combatant_id as u64, third: 0u64 },
        Belief::BallThrownAtCombatant { ball_id, thrower_combatant_id, target_combatant_id, .. } => BeliefKey { variant: 8u8, first: ball_id as u64, second: thrower_combatant_id as u64, third: target_combatant_id as u64 },
        Belief::BallIsFlying { ball_id, .. } => BeliefKey { variant: 9u8, first: ball_id as u64, second: 0u64, third: 0u64 },
        Belief::DirectLineOfSightToCombatant { self_combatant_id, other_combatant_id, .. } => BeliefKey { variant: 10u8, first: self_combatant_id as u64, second: other_combatant_id as u64, third: 0u64 },
        Belief::CombatantShoved { combatant_id, .. } => BeliefKey { variant: 11u8, first: combatant_id as u64, second: 0u64, third: 0u64 },
        Belief::BallCaught { combatant_id, .. } => BeliefKey { variant: 12u8, first: combatant_id as u64, second: 0u64, third: 0u64 },
        Belief::CombatantIsStunned { combatant_id, .. } => BeliefKey { variant: 13u8, first: combatant_id as u64, second: 0u64, third: 0u64 },
    }
}

impl Belief {
    /// The unique key of this belief.
    pub fn key(&self) -> (r: BeliefKey)
        ensures
            r == belief_key(*self),
    {
        match *self {
            Belief::ScannedEnvironment { tick, .. } => BeliefKey { variant: 0u8, first: tick as u64, second: 0u64, third: 0u64 },
            Belief::BallPosition { ball_id, .. } => BeliefKey { variant: 1u8, first: ball_id as u64, second: 0u64, third: 0u64 },
            Belief::CombatantPosition { combatant_id, .. } => BeliefKey { variant: 2u8, first: combatant_id as u64, second: 0u64, third: 0u64 },
            Belief::PlatePosition { plate_id, .. } => BeliefKey { variant: 3u8, first: plate_id as u64, second: 0u64, third: 0u64 },
            Belief::OnPlate { plate_id, combatant_id, .. } => BeliefKey { variant: 4u8, first: plate_id as u64, second: combatant_id as u64, third: 0u64 },
            Belief::HeldBall { ball_id, combatant_id, .. } => BeliefKey { variant: 5u8, first: ball_id as u64, second: combatant_id as u64, third: 0u64 },
            Belief::InBallPickupRange { ball_id, combatant_id, .. } => BeliefKey { variant: 6u8, first: ball_id as u64, second: combatant_id as u64, third: 0u64 },
            Belief::CanReachCombatant { self_combatant_id, target_combatant_id, .. } => BeliefKey { variant: 7u8, first: self_combatant_id as u64, second: target_combatant_id as u64, third: 0u64 },
            Belief::BallThrownAtCombatant { ball_id, thrower_combatant_id, target_combatant_id, .. } => BeliefKey { variant: 8u8, first: ball_id as u64, second: thrower_combatant_id as u64, third: target_combatant_id as u64 },
            Belief::BallIsFlying { ball_id, .. } => BeliefKey { variant: 9u8, first: ball_id as u64, second: 0u64, third: 0u64 },
            Belief::DirectLineOfSightToCombatant { self_combatant_id, other_combatant_id, .. } => BeliefKey { variant: 10u8, first: self_combatant_id as u64, second: other_combatant_id as u64, third: 0u64 },
            Belief::CombatantShoved { combatant_id, .. } => BeliefKey { variant: 11u8, first: combatant_id as u64, second: 0u64, third: 0u64 },
            Belief::BallCaught { combatant_id, .. } => BeliefKey { variant: 12u8, first: combatant_id as u64, second: 0u64, third: 0u64 },
            Belief::CombatantIsStunned { combatant_id, .. } => BeliefKey { variant: 13u8, first: combatant_id as u64, second: 0u64, third: 0u64 },
        }
    }


    /// Does the other belief have this belief's variant?
    pub fn same_variant(&self, other: &Belief) -> (r: bool)
        ensures
            r == (belief_variant(*self) == belief_variant(*other)),
    {
        match (self, other) {
            (Belief::ScannedEnvironment { .. }, Belief::ScannedEnvironment { .. }) => true,
            (Belief::BallPosition { .. }, Belief::BallPosition { .. }) => true,
            (Belief::CombatantPosition { .. }, Belief::CombatantPosition { .. }) => true,
            (Belief::PlatePosition { .. }, Belief::PlatePosition { .. }) => true,
            (Belief::OnPlate { .. }, Belief::OnPlate { .. }) => true,
            (Belief::HeldBall { .. }, Belief::HeldBall { .. }) => true,
            (Belief::InBallPickupRange { .. }, Belief::InBallPickupRange { .. }) => true,
            (Belief::CanReachCombatant { .. }, Belief::CanReachCombatant { .. }) => true,
            (Belief::BallThrownAtCombatant { .. }, Belief::BallThrownAtCombatant { .. }) => true,
            (Belief::BallIsFlying { .. }, Belief::BallIsFlying { .. }) => true,
            (Belief::DirectLineOfSightToCombatant { .. }, Belief::DirectLineOfSightToCombatant { .. }) => true,
            (Belief::CombatantShoved { .. }, Belief::CombatantShoved { .. }) => true,
            (Belief::BallCaught { .. }, Belief::BallCaught { .. }) => true,
            (Belief::CombatantIsStunned { .. }, Belief::CombatantIsStunned { .. }) => true,
            _ => false,
        }
    }
}

impl SatisfiabilityTest for BeliefTest {
    type ConcreteT = Belief;

    open spec fn spec_is_same_variant(&self, concrete: &Belief) -> bool {
        test_variant(self@) == belief_variant(*concrete)
    }

    open spec fn spec_satisfied_by(&self, concrete: &Belief) -> bool {
        test_passes(self@, *concrete)
    }

    fn is_same_variant(&self, concrete: &Belief) -> (r: bool) {
        self.same_variant(concrete)
    }

    fn satisfied_by(&self, concrete: Belief) -> (r: bool) {
        self.passes(&concrete)
    }
}

/// A concrete belief tests other beliefs for equality.
impl SatisfiabilityTest for Belief {
    type ConcreteT = Belief;

    open spec fn spec_is_same_variant(&self, concrete: &Belief) -> bool {
        belief_variant(*self) == belief_variant(*concrete)
    }

    open spec fn spec_satisfied_by(&self, concrete: &Belief) -> bool {
        *self == *concrete
    }

    fn is_same_variant(&self, concrete: &Belief) -> (r: bool) {
        self.same_variant(concrete)
    }

    fn satisfied_by(&self, concrete: Belief) -> (r: bool) {
        *self == concrete
    }
}

impl Uniqueness for Belief {
    type Key = BeliefKey;

    open spec fn spec_unique_key(&self) -> BeliefKey {
        belief_key(*self)
    }

    /// Every variant of a belief has a key, built from its variant and its unique fields.
    open spec fn spec_has_key(&self) -> bool {
        true
    }

    fn unique_key(&self) -> (r: BeliefKey) {
        self.key()
    }

    fn has_key(&self) -> (r: bool) {
        true
    }

    fn has_same_unique_key(&self, other: &Belief) -> (r: bool) {
        self.has_key() && other.has_key() && self.key() == other.key()
    }
}

/// A belief that is forgotten once its expiry tick is reached.
#[derive(Clone, Copy, Debug, PartialEq, Eq, Structural)]
pub struct ExpiringBelief {
    pub belief: Belief,
    pub expires_on_tick: Option<GameTickNumber>,
}

impl ExpiringBelief {
    pub fn new(belief: Belief, expires_on_tick: Option<GameTickNumber>) -> (r: ExpiringBelief)
        ensures
            r.belief == belief,
            r.expires_on_tick == expires_on_tick,
    {
        ExpiringBelief { belief, expires_on_tick }
    }

    /// Wraps each belief, in order, with the same expiry.
    pub fn from_beliefs(beliefs: &[Belief], expires_on_tick: Option<GameTickNumber>) -> (r: Vec<
        ExpiringBelief,
    >)
        ensures
            r@ == expire_all(beliefs@, expires_on_tick),
    {
        let mut expiring: Vec<ExpiringBelief> = Vec::new();
        let mut i: usize = 0;
        while i < beliefs.len()
            invariant
                i <= beliefs@.len(),
                expiring@ == expire_all(beliefs@.take(i as int), expires_on_tick),
            decreases beliefs@.len() - i,
        {
            expiring.push(ExpiringBelief::new(beliefs[i], expires_on_tick));
            i = i + 1;
            assert(expiring@ =~= expire_all(beliefs@.take(i as int), expires_on_tick));
        }
        assert(beliefs@.take(beliefs@.len() as int) =~= beliefs@);
        expiring
    }
}

/// Each belief wrapped with the same expiry.
pub open spec fn expire_all(beliefs: Seq<Belief>, expires_on_tick: Option<GameTickNumber>) -> Seq<
    ExpiringBelief,
> {
    beliefs.map_values(|b: Belief| ExpiringBelief { belief: b, expires_on_tick })
}

} // verus!
