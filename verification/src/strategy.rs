use vstd::prelude::*;
use crate::ball::{BallObject, BallState};
use crate::belief::{BallId, BeliefTestView, CombatantId, SatisfiableBelief, Vector3Bits};
use crate::game_object::TeamAlignment;
use crate::game_state::{GameState, ball_of, combatant_of, has_ball, has_combatant, with_ball};
use crate::ball::with_state;
use crate::simulation_event::{PendingSimulationEvent, SimulationEvent};
use crate::belief_set::{BeliefSet, BeliefSetView, spec_all_satisfy, spec_can_satisfy};
use crate::game_object::GameObjectType;
use crate::satisfiable::{FieldTest, SatisfiableField};
use crate::text::{decimal, with_number};

verus! {

/// How an action is carried out. The decisions a strategy makes from an agent's beliefs
/// stand here; the movement it performs in the physics world is driven by the caller.
pub trait Strategy {
    /// Whether the strategy can be performed given these beliefs.
    spec fn spec_can_perform(&self, beliefs: BeliefSetView) -> bool;

    /// Whether these beliefs interrupt the strategy.
    spec fn spec_should_interrupt(&self, beliefs: BeliefSetView) -> bool;

    /// Whether the strategy has run to completion.
    spec fn spec_is_complete(&self) -> bool;

    /// The name the strategy is shown by.
    spec fn spec_name(&self) -> Seq<char>;

    fn name(&self) -> (r: String)
        ensures
            r@ == self.spec_name(),
    ;

    /// Can this strategy be performed given our current beliefs about the world?
    fn can_perform(&self, owned_beliefs: &BeliefSet) -> (r: bool)
        ensures
            r == self.spec_can_perform(owned_beliefs@),
    ;

    /// Should the plan this strategy belongs to be abandoned?
    fn should_interrupt(&self, owned_beliefs: &BeliefSet) -> (r: bool)
        ensures
            r == self.spec_should_interrupt(owned_beliefs@),
    ;

    /// Was this strategy running and is now complete?
    fn is_complete(&self) -> (r: bool)
        ensures
            r == self.spec_is_complete(),
    ;
}

/// A strategy that does nothing and is always complete.
pub struct NoopStrategy;

impl Strategy for NoopStrategy {
    open spec fn spec_can_perform(&self, beliefs: BeliefSetView) -> bool {
        true
    }

    open spec fn spec_should_interrupt(&self, beliefs: BeliefSetView) -> bool {
        false
    }

    open spec fn spec_is_complete(&self) -> bool {
        true
    }

    open spec fn spec_name(&self) -> Seq<char> {
        "Noop"@
    }

    fn name(&self) -> (r: String) {
        String::from_str("Noop")
    }

    fn can_perform(&self, _owned_beliefs: &BeliefSet) -> (r: bool) {
        true
    }

    fn should_interrupt(&self, _owned_beliefs: &BeliefSet) -> (r: bool) {
        false
    }

    fn is_complete(&self) -> (r: bool) {
        true
    }
}

/// Turns the combatant a quarter turn; complete after one tick.
pub struct LookAroundStrategy {
    is_complete: bool,
}

impl LookAroundStrategy {
    pub fn new() -> (r: LookAroundStrategy)
        ensures
            !r.spec_is_complete(),
    {
        LookAroundStrategy { is_complete: false }
    }

    /// Records that the quarter turn of this tick has been made.
    pub fn complete_turn(&mut self)
        ensures
            final(self).spec_is_complete(),
    {
        self.is_complete = true;
    }
}

impl Strategy for LookAroundStrategy {
    open spec fn spec_can_perform(&self, beliefs: BeliefSetView) -> bool {
        true
    }

    open spec fn spec_should_interrupt(&self, beliefs: BeliefSetView) -> bool {
        false
    }

    closed spec fn spec_is_complete(&self) -> bool {
        self.is_complete
    }

    open spec fn spec_name(&self) -> Seq<char> {
        "Look Around"@
    }

    fn name(&self) -> (r: String) {
        String::from_str("Look Around")
    }

    fn can_perform(&self, _owned_beliefs: &BeliefSet) -> (r: bool) {
        true
    }

    fn should_interrupt(&self, _owned_beliefs: &BeliefSet) -> (r: bool) {
        false
    }

    fn is_complete(&self) -> (r: bool) {
        self.is_complete
    }
}

/// Walks a combatant along a navigation path towards a location or a game object.
/// The path's nodes are held as bit patterns of their coordinates; the caller computes paths
/// and moves the combatant.
pub struct MoveToLocationStrategy {
    pub is_complete: bool,
    pub path: Vec<Vector3Bits>,
    pub next_node: Option<Vector3Bits>,
    pub self_combatant_id: CombatantId,
    pub start_location: Option<Vector3Bits>,
    pub target_game_object: Option<GameObjectType>,
    pub target_location: Vector3Bits,
    pub max_ticks: u16,
    pub dynamic_pathing: bool,
}

impl MoveToLocationStrategy {
    /// Moves to a fixed location within at most `max_ticks` ticks.
    pub fn new(self_combatant_id: CombatantId, target_location: Vector3Bits, max_ticks: u16) -> (r:
        MoveToLocationStrategy)
        ensures
            !r.is_complete,
            r.path@.len() == 0,
            r.next_node is None,
            r.self_combatant_id == self_combatant_id,
            r.start_location is None,
            r.target_game_object is None,
            r.target_location == target_location,
            r.max_ticks == max_ticks,
            !r.dynamic_pathing,
    {
        MoveToLocationStrategy {
            is_complete: false,
            path: Vec::new(),
            next_node: None,
            self_combatant_id,
            start_location: None,
            target_game_object: None,
            target_location,
            max_ticks,
            dynamic_pathing: false,
        }
    }

    /// Moves to where a game object stands when the path is computed.
    pub fn new_with_target_object(
        self_combatant_id: CombatantId,
        target_object: GameObjectType,
        max_ticks: u16,
    ) -> (r: MoveToLocationStrategy)
        ensures
            !r.is_complete,
            r.path@.len() == 0,
            r.next_node is None,
            r.self_combatant_id == self_combatant_id,
            r.start_location is None,
            r.target_game_object == Some(target_object),
            r.target_location == (Vector3Bits { x: 0, y: 0, z: 0 }),
            r.max_ticks == max_ticks,
            !r.dynamic_pathing,
    {
        MoveToLocationStrategy {
            is_complete: false,
            path: Vec::new(),
            next_node: None,
            self_combatant_id,
            start_location: None,
            target_game_object: Some(target_object),
            target_location: Vector3Bits { x: 0, y: 0, z: 0 },
            max_ticks,
            dynamic_pathing: false,
        }
    }

    /// Follows a game object, recomputing the path at every node, with no tick limit.
    pub fn new_with_target_tracking(self_combatant_id: CombatantId, target_object: GameObjectType) -> (r:
        MoveToLocationStrategy)
        ensures
            !r.is_complete,
            r.path@.len() == 0,
            r.next_node is None,
            r.self_combatant_id == self_combatant_id,
            r.start_location is None,
            r.target_game_object == Some(target_object),
            r.target_location == (Vector3Bits { x: 0, y: 0, z: 0 }),
            r.max_ticks == u16::MAX,
            r.dynamic_pathing,
    {
        MoveToLocationStrategy {
            is_complete: false,
            path: Vec::new(),
            next_node: None,
            self_combatant_id,
            start_location: None,
            target_game_object: Some(target_object),
            target_location: Vector3Bits { x: 0, y: 0, z: 0 },
            max_ticks: u16::MAX,
            dynamic_pathing: true,
        }
    }

    /// The start of a tick: one tick of the budget is used up (never below zero), and the
    /// answer says whether a new path must be computed before moving: with dynamic pathing
    /// when no next node is set, otherwise when the path is empty and no next node is set.
    pub fn begin_tick(&mut self) -> (needs_path: bool)
        ensures
            final(self).max_ticks == (if old(self).max_ticks == 0 {
                0
            } else {
                (old(self).max_ticks - 1) as u16
            }),
            needs_path == (if old(self).dynamic_pathing {
                old(self).next_node is None
            } else {
                old(self).path@.len() == 0 && old(self).next_node is None
            }),
            final(self).path == old(self).path,
            final(self).next_node == old(self).next_node,
            final(self).is_complete == old(self).is_complete,
            final(self).self_combatant_id == old(self).self_combatant_id,
            final(self).start_location == old(self).start_location,
            final(self).target_game_object == old(self).target_game_object,
            final(self).target_location == old(self).target_location,
            final(self).dynamic_pathing == old(self).dynamic_pathing,
    {
        self.max_ticks = match self.max_ticks.checked_sub(1) {
            Some(t) => t,
            None => 0,
        };
        if self.dynamic_pathing {
            self.next_node.is_none()
        } else {
            self.path.len() == 0 && self.next_node.is_none()
        }
    }

    /// The end of a tick's walk: the strategy completes when the combatant reached its target
    /// (as measured in the physics world) or has no node left to walk to.
    pub fn end_tick(&mut self, at_target: bool)
        ensures
            final(self).is_complete == (old(self).is_complete || at_target || old(self).next_node is None),
            final(self).path == old(self).path,
            final(self).next_node == old(self).next_node,
            final(self).max_ticks == old(self).max_ticks,
            final(self).self_combatant_id == old(self).self_combatant_id,
            final(self).start_location == old(self).start_location,
            final(self).target_game_object == old(self).target_game_object,
            final(self).target_location == old(self).target_location,
            final(self).dynamic_pathing == old(self).dynamic_pathing,
    {
        if at_target || self.next_node.is_none() {
            self.is_complete = true;
        }
    }
}

impl Strategy for MoveToLocationStrategy {
    /// With no path, the strategy is either uninitialized or has nowhere to go, and may run;
    /// with a path, it may run only while it has a node to walk to.
    open spec fn spec_can_perform(&self, beliefs: BeliefSetView) -> bool {
        self.path@.len() == 0 || self.next_node is Some
    }

    open spec fn spec_should_interrupt(&self, beliefs: BeliefSetView) -> bool {
        self.max_ticks == 0
    }

    open spec fn spec_is_complete(&self) -> bool {
        self.is_complete
    }

    open spec fn spec_name(&self) -> Seq<char> {
        "Move to Location"@
    }

    fn name(&self) -> (r: String) {
        String::from_str("Move to Location")
    }

    fn can_perform(&self, _owned_beliefs: &BeliefSet) -> (r: bool) {
        self.path.len() == 0 || self.next_node.is_some()
    }

    fn should_interrupt(&self, _owned_beliefs: &BeliefSet) -> (r: bool) {
        self.max_ticks == 0
    }

    fn is_complete(&self) -> (r: bool) {
        self.is_complete
    }
}

/// The test "some combatant other than `id` holds a ball": any HeldBall belief whose
/// combatant is not `id`.
pub open spec fn held_by_other(id: CombatantId) -> BeliefTestView {
    BeliefTestView::HeldBall { ball_id: FieldTest::Ignore, combatant_id: FieldTest::NotExactly(id) }
}

/// The test "ball `ball` is within reach of combatant `id`".
pub open spec fn in_reach(ball: BallId, id: CombatantId) -> BeliefTestView {
    BeliefTestView::InBallPickupRange {
        ball_id: FieldTest::Exactly(ball),
        combatant_id: FieldTest::Exactly(id),
    }
}

/// The test "someone holds ball `ball`".
pub open spec fn ball_held(ball: BallId) -> BeliefTestView {
    BeliefTestView::HeldBall { ball_id: FieldTest::Exactly(ball), combatant_id: FieldTest::Ignore }
}

/// Picks up a ball within reach.
pub struct PickUpBallStrategy {
    pub self_combatant_id: CombatantId,
    pub self_combatant_position: Vector3Bits,
    /// The reach, as the bit pattern of an `f32`.
    pub self_combatant_reach: u32,
    pub ball_id: BallId,
    pub is_complete: bool,
}

impl PickUpBallStrategy {
    /// A strategy for the combatant at the given position to pick up `target_ball`; its reach
    /// is 1.0.
    pub fn new(self_id: CombatantId, self_position: Vector3Bits, target_ball: BallId) -> (r:
        PickUpBallStrategy)
        ensures
            r.self_combatant_id == self_id,
            r.self_combatant_position == self_position,
            r.self_combatant_reach == 0x3f80_0000u32,
            r.ball_id == target_ball,
            !r.is_complete,
    {
        PickUpBallStrategy {
            self_combatant_id: self_id,
            self_combatant_position: self_position,
            self_combatant_reach: 0x3f80_0000u32,
            ball_id: target_ball,
            is_complete: false,
        }
    }

    /// The decision of a tick, given who holds the target ball according to the game
    /// (`None` when the ball does not exist): the pick-up fails when the ball is missing or
    /// held; otherwise the strategy completes.
    pub fn attempt(&mut self, ball_holder: Option<Option<CombatantId>>) -> (picked_up: bool)
        ensures
            picked_up == (ball_holder == Some(None::<CombatantId>)),
            final(self).is_complete == (old(self).is_complete || picked_up),
            final(self).self_combatant_id == old(self).self_combatant_id,
            final(self).ball_id == old(self).ball_id,
            final(self).self_combatant_position == old(self).self_combatant_position,
            final(self).self_combatant_reach == old(self).self_combatant_reach,
    {
        match ball_holder {
            None => false,
            Some(Some(_)) => false,
            Some(None) => {
                self.is_complete = true;
                true
            },
        }
    }
}

impl Strategy for PickUpBallStrategy {
    /// The combatant holds no ball, the ball is within its reach, and no one holds the ball.
    open spec fn spec_can_perform(&self, beliefs: BeliefSetView) -> bool {
        &&& !self.spec_should_interrupt(beliefs)
        &&& spec_all_satisfy(beliefs, held_by_other(self.self_combatant_id))
        &&& spec_can_satisfy(beliefs, in_reach(self.ball_id, self.self_combatant_id))
    }

    /// Someone picked up the target ball.
    open spec fn spec_should_interrupt(&self, beliefs: BeliefSetView) -> bool {
        spec_can_satisfy(beliefs, ball_held(self.ball_id))
    }

    open spec fn spec_is_complete(&self) -> bool {
        self.is_complete
    }

    /// "Pick Up Ball " followed by the ball's number.
    open spec fn spec_name(&self) -> Seq<char> {
        "Pick Up Ball "@ + decimal(self.ball_id as nat)
    }

    fn name(&self) -> (r: String) {
        with_number("Pick Up Ball ", self.ball_id as u64)
    }

    fn can_perform(&self, owned_beliefs: &BeliefSet) -> (r: bool) {
        let self_not_holding_any_ball = owned_beliefs.all_satisfy(
            SatisfiableBelief::HeldBall().combatant_id(
                SatisfiableField::NotExactly(self.self_combatant_id),
            ),
        );
        let self_can_reach_ball = owned_beliefs.can_satisfy(
            &SatisfiableBelief::InBallPickupRange().ball_id(
                SatisfiableField::Exactly(self.ball_id),
            ).combatant_id(SatisfiableField::Exactly(self.self_combatant_id)),
        );
        !self.should_interrupt(owned_beliefs) && self_not_holding_any_ball && self_can_reach_ball
    }

    fn should_interrupt(&self, owned_beliefs: &BeliefSet) -> (r: bool) {
        owned_beliefs.can_satisfy(
            &SatisfiableBelief::HeldBall().ball_id(SatisfiableField::Exactly(self.ball_id)),
        )
    }

    fn is_complete(&self) -> (r: bool) {
        self.is_complete
    }
}

/// The test "combatant `id` can reach combatant `target`".
pub open spec fn can_reach(id: CombatantId, target: CombatantId) -> BeliefTestView {
    BeliefTestView::CanReachCombatant {
        self_combatant_id: FieldTest::Exactly(id),
        target_combatant_id: FieldTest::Exactly(target),
    }
}

/// Shoves another combatant.
pub struct ShoveCombatantStrategy {
    pub self_combatant_id: CombatantId,
    pub target_combatant_id: CombatantId,
    pub is_complete: bool,
}

impl ShoveCombatantStrategy {
    pub fn new(self_combatant_id: CombatantId, target_combatant_id: CombatantId) -> (r:
        ShoveCombatantStrategy)
        ensures
            r.self_combatant_id == self_combatant_id,
            r.target_combatant_id == target_combatant_id,
            !r.is_complete,
    {
        ShoveCombatantStrategy { self_combatant_id, target_combatant_id, is_complete: false }
    }
}

impl Strategy for ShoveCombatantStrategy {
    /// The combatant believes it can reach its target.
    open spec fn spec_can_perform(&self, beliefs: BeliefSetView) -> bool {
        spec_can_satisfy(beliefs, can_reach(self.self_combatant_id, self.target_combatant_id))
    }

    open spec fn spec_should_interrupt(&self, beliefs: BeliefSetView) -> bool {
        false
    }

    open spec fn spec_is_complete(&self) -> bool {
        self.is_complete
    }

    open spec fn spec_name(&self) -> Seq<char> {
        "Shove Combatant"@
    }

    fn name(&self) -> (r: String) {
        String::from_str("Shove Combatant")
    }

    fn can_perform(&self, owned_beliefs: &BeliefSet) -> (r: bool) {
        owned_beliefs.can_satisfy(
            &SatisfiableBelief::CanReachCombatant().self_combatant_id(
                SatisfiableField::Exactly(self.self_combatant_id),
            ).target_combatant_id(SatisfiableField::Exactly(self.target_combatant_id)),
        )
    }

    fn should_interrupt(&self, _owned_beliefs: &BeliefSet) -> (r: bool) {
        false
    }

    fn is_complete(&self) -> (r: bool) {
        self.is_complete
    }
}

/// The test "combatant `id` holds some ball".
pub open spec fn holds_a_ball(id: CombatantId) -> BeliefTestView {
    BeliefTestView::HeldBall { ball_id: FieldTest::Ignore, combatant_id: FieldTest::Exactly(id) }
}

/// The test "combatant `id` sees combatant `other` directly".
pub open spec fn sees(id: CombatantId, other: CombatantId) -> BeliefTestView {
    BeliefTestView::DirectLineOfSightToCombatant {
        self_combatant_id: FieldTest::Exactly(id),
        other_combatant_id: FieldTest::Exactly(other),
    }
}

/// Throws the held ball at a target combatant.
pub struct ThrowBallAtTargetStrategy {
    pub self_id: CombatantId,
    pub target: CombatantId,
    pub is_complete: bool,
}

impl ThrowBallAtTargetStrategy {
    pub fn new(self_combatant_id: CombatantId, target_combatant: CombatantId) -> (r:
        ThrowBallAtTargetStrategy)
        ensures
            r.self_id == self_combatant_id,
            r.target == target_combatant,
            !r.is_complete,
    {
        ThrowBallAtTargetStrategy { self_id: self_combatant_id, target: target_combatant, is_complete: false }
    }

    /// Marks the throw as done, whether it was made or abandoned.
    pub fn finish(&mut self)
        ensures
            final(self).is_complete,
            final(self).self_id == old(self).self_id,
            final(self).target == old(self).target,
    {
        self.is_complete = true;
    }
}

impl Strategy for ThrowBallAtTargetStrategy {
    /// The combatant believes it holds a ball and sees its target.
    open spec fn spec_can_perform(&self, beliefs: BeliefSetView) -> bool {
        spec_can_satisfy(beliefs, holds_a_ball(self.self_id)) && spec_can_satisfy(
            beliefs,
            sees(self.self_id, self.target),
        )
    }

    open spec fn spec_should_interrupt(&self, beliefs: BeliefSetView) -> bool {
        false
    }

    open spec fn spec_is_complete(&self) -> bool {
        self.is_complete
    }

    open spec fn spec_name(&self) -> Seq<char> {
        "Throw Ball at Target"@
    }

    fn name(&self) -> (r: String) {
        String::from_str("Throw Ball at Target")
    }

    fn can_perform(&self, owned_beliefs: &BeliefSet) -> (r: bool) {
        let has_ball = owned_beliefs.can_satisfy(
            &SatisfiableBelief::HeldBall().combatant_id(SatisfiableField::Exactly(self.self_id)),
        );
        let can_see_target = owned_beliefs.can_satisfy(
            &SatisfiableBelief::DirectLineOfSightToCombatant().self_combatant_id(
                SatisfiableField::Exactly(self.self_id),
            ).other_combatant_id(SatisfiableField::Exactly(self.target)),
        );
        has_ball && can_see_target
    }

    fn should_interrupt(&self, _owned_beliefs: &BeliefSet) -> (r: bool) {
        false
    }

    fn is_complete(&self) -> (r: bool) {
        self.is_complete
    }
}

/// The model of a [`MoveToLocationStrategy`].
#[verifier::ext_equal]
pub struct MoveToLocationView {
    pub is_complete: bool,
    pub path: Seq<Vector3Bits>,
    pub next_node: Option<Vector3Bits>,
    pub self_combatant_id: CombatantId,
    pub start_location: Option<Vector3Bits>,
    pub target_game_object: Option<GameObjectType>,
    pub target_location: Vector3Bits,
    pub max_ticks: u16,
    pub dynamic_pathing: bool,
}

impl View for MoveToLocationStrategy {
    type V = MoveToLocationView;

    open spec fn view(&self) -> MoveToLocationView {
        MoveToLocationView {
            is_complete: self.is_complete,
            path: self.path@,
            next_node: self.next_node,
            self_combatant_id: self.self_combatant_id,
            start_location: self.start_location,
            target_game_object: self.target_game_object,
            target_location: self.target_location,
            max_ticks: self.max_ticks,
            dynamic_pathing: self.dynamic_pathing,
        }
    }
}

/// A fresh strategy moving a combatant to a location or a game object.
pub open spec fn fresh_move(
    self_combatant_id: CombatantId,
    target_game_object: Option<GameObjectType>,
    target_location: Vector3Bits,
    max_ticks: u16,
) -> MoveToLocationView {
    MoveToLocationView {
        is_complete: false,
        path: seq![],
        next_node: None,
        self_combatant_id,
        start_location: None,
        target_game_object,
        target_location,
        max_ticks,
        dynamic_pathing: false,
    }
}

/// The strategies a combatant's actions are carried out with.
pub enum CombatantStrategy {
    MoveToLocation(MoveToLocationStrategy),
    PickUpBall(PickUpBallStrategy),
    ShoveCombatant(ShoveCombatantStrategy),
    ThrowBallAtTarget(ThrowBallAtTargetStrategy),
    LookAround(LookAroundStrategy),
    Noop(NoopStrategy),
}

/// The model of a [`CombatantStrategy`].
#[verifier::ext_equal]
pub enum CombatantStrategyView {
    MoveToLocation(MoveToLocationView),
    PickUpBall { self_combatant_id: CombatantId, self_combatant_position: Vector3Bits, self_combatant_reach: u32, ball_id: BallId, is_complete: bool },
    ShoveCombatant { self_combatant_id: CombatantId, target_combatant_id: CombatantId, is_complete: bool },
    ThrowBallAtTarget { self_id: CombatantId, target: CombatantId, is_complete: bool },
    LookAround { is_complete: bool },
    Noop,
}

impl View for CombatantStrategy {
    type V = CombatantStrategyView;

    open spec fn view(&self) -> CombatantStrategyView {
        match self {
            CombatantStrategy::MoveToLocation(s) => CombatantStrategyView::MoveToLocation(s@),
            CombatantStrategy::PickUpBall(s) => CombatantStrategyView::PickUpBall {
                self_combatant_id: s.self_combatant_id,
                self_combatant_position: s.self_combatant_position,
                self_combatant_reach: s.self_combatant_reach,
                ball_id: s.ball_id,
                is_complete: s.is_complete,
            },
            CombatantStrategy::ShoveCombatant(s) => CombatantStrategyView::ShoveCombatant {
                self_combatant_id: s.self_combatant_id,
                target_combatant_id: s.target_combatant_id,
                is_complete: s.is_complete,
            },
            CombatantStrategy::ThrowBallAtTarget(s) => CombatantStrategyView::ThrowBallAtTarget {
                self_id: s.self_id,
                target: s.target,
                is_complete: s.is_complete,
            },
            CombatantStrategy::LookAround(s) => CombatantStrategyView::LookAround {
                is_complete: s.spec_is_complete(),
            },
            CombatantStrategy::Noop(_) => CombatantStrategyView::Noop,
        }
    }
}

impl Strategy for CombatantStrategy {
    open spec fn spec_can_perform(&self, beliefs: BeliefSetView) -> bool {
        match self {
            CombatantStrategy::MoveToLocation(s) => s.spec_can_perform(beliefs),
            CombatantStrategy::PickUpBall(s) => s.spec_can_perform(beliefs),
            CombatantStrategy::ShoveCombatant(s) => s.spec_can_perform(beliefs),
            CombatantStrategy::ThrowBallAtTarget(s) => s.spec_can_perform(beliefs),
            CombatantStrategy::LookAround(s) => s.spec_can_perform(beliefs),
            CombatantStrategy::Noop(s) => s.spec_can_perform(beliefs),
        }
    }

    open spec fn spec_should_interrupt(&self, beliefs: BeliefSetView) -> bool {
        match self {
            CombatantStrategy::MoveToLocation(s) => s.spec_should_interrupt(beliefs),
            CombatantStrategy::PickUpBall(s) => s.spec_should_interrupt(beliefs),
            CombatantStrategy::ShoveCombatant(s) => s.spec_should_interrupt(beliefs),
            CombatantStrategy::ThrowBallAtTarget(s) => s.spec_should_interrupt(beliefs),
            CombatantStrategy::LookAround(s) => s.spec_should_interrupt(beliefs),
            CombatantStrategy::Noop(s) => s.spec_should_interrupt(beliefs),
        }
    }

    open spec fn spec_is_complete(&self) -> bool {
        match self {
            CombatantStrategy::MoveToLocation(s) => s.spec_is_complete(),
            CombatantStrategy::PickUpBall(s) => s.spec_is_complete(),
            CombatantStrategy::ShoveCombatant(s) => s.spec_is_complete(),
            CombatantStrategy::ThrowBallAtTarget(s) => s.spec_is_complete(),
            CombatantStrategy::LookAround(s) => s.spec_is_complete(),
            CombatantStrategy::Noop(s) => s.spec_is_complete(),
        }
    }

    open spec fn spec_name(&self) -> Seq<char> {
        match self {
            CombatantStrategy::MoveToLocation(s) => s.spec_name(),
            CombatantStrategy::PickUpBall(s) => s.spec_name(),
            CombatantStrategy::ShoveCombatant(s) => s.spec_name(),
            CombatantStrategy::ThrowBallAtTarget(s) => s.spec_name(),
            CombatantStrategy::LookAround(s) => s.spec_name(),
            CombatantStrategy::Noop(s) => s.spec_name(),
        }
    }

    fn name(&self) -> (r: String) {
        match self {
            CombatantStrategy::MoveToLocation(s) => s.name(),
            CombatantStrategy::PickUpBall(s) => s.name(),
            CombatantStrategy::ShoveCombatant(s) => s.name(),
            CombatantStrategy::ThrowBallAtTarget(s) => s.name(),
            CombatantStrategy::LookAround(s) => s.name(),
            CombatantStrategy::Noop(s) => s.name(),
        }
    }

    fn can_perform(&self, owned_beliefs: &BeliefSet) -> (r: bool) {
        match self {
            CombatantStrategy::MoveToLocation(s) => s.can_perform(owned_beliefs),
            CombatantStrategy::PickUpBall(s) => s.can_perform(owned_beliefs),
            CombatantStrategy::ShoveCombatant(s) => s.can_perform(owned_beliefs),
            CombatantStrategy::ThrowBallAtTarget(s) => s.can_perform(owned_beliefs),
            CombatantStrategy::LookAround(s) => s.can_perform(owned_beliefs),
            CombatantStrategy::Noop(s) => s.can_perform(owned_beliefs),
        }
    }

    fn should_interrupt(&self, owned_beliefs: &BeliefSet) -> (r: bool) {
        match self {
            CombatantStrategy::MoveToLocation(s) => s.should_interrupt(owned_beliefs),
            CombatantStrategy::PickUpBall(s) => s.should_interrupt(owned_beliefs),
            CombatantStrategy::ShoveCombatant(s) => s.should_interrupt(owned_beliefs),
            CombatantStrategy::ThrowBallAtTarget(s) => s.should_interrupt(owned_beliefs),
            CombatantStrategy::LookAround(s) => s.should_interrupt(owned_beliefs),
            CombatantStrategy::Noop(s) => s.should_interrupt(owned_beliefs),
        }
    }

    fn is_complete(&self) -> (r: bool) {
        match self {
            CombatantStrategy::MoveToLocation(s) => s.is_complete(),
            CombatantStrategy::PickUpBall(s) => s.is_complete(),
            CombatantStrategy::ShoveCombatant(s) => s.is_complete(),
            CombatantStrategy::ThrowBallAtTarget(s) => s.is_complete(),
            CombatantStrategy::LookAround(s) => s.is_complete(),
            CombatantStrategy::Noop(s) => s.is_complete(),
        }
    }
}

impl CombatantStrategy {
    /// A copy of the strategy.
    pub fn duplicate(&self) -> (r: CombatantStrategy)
        ensures
            r@ == self@,
    {
        match self {
            CombatantStrategy::MoveToLocation(s) => {
                let mut path: Vec<Vector3Bits> = Vec::new();
                let mut i: usize = 0;
                while i < s.path.len()
                    invariant
                        i <= s.path.len(),
                        path@ == s.path@.take(i as int),
                    decreases s.path.len() - i,
                {
                    path.push(s.path[i]);
                    i = i + 1;
                    assert(path@ =~= s.path@.take(i as int));
                }
                assert(s.path@.take(s.path.len() as int) =~= s.path@);
                let r = CombatantStrategy::MoveToLocation(MoveToLocationStrategy {
                    is_complete: s.is_complete,
                    path,
                    next_node: s.next_node,
                    self_combatant_id: s.self_combatant_id,
                    start_location: s.start_location,
                    target_game_object: s.target_game_object,
                    target_location: s.target_location,
                    max_ticks: s.max_ticks,
                    dynamic_pathing: s.dynamic_pathing,
                });
                assert(r@ =~= self@);
                r
            },
            CombatantStrategy::PickUpBall(s) => CombatantStrategy::PickUpBall(PickUpBallStrategy {
                self_combatant_id: s.self_combatant_id,
                self_combatant_position: s.self_combatant_position,
                self_combatant_reach: s.self_combatant_reach,
                ball_id: s.ball_id,
                is_complete: s.is_complete,
            }),
            CombatantStrategy::ShoveCombatant(s) => CombatantStrategy::ShoveCombatant(ShoveCombatantStrategy {
                self_combatant_id: s.self_combatant_id,
                target_combatant_id: s.target_combatant_id,
                is_complete: s.is_complete,
            }),
            CombatantStrategy::ThrowBallAtTarget(s) => CombatantStrategy::ThrowBallAtTarget(ThrowBallAtTargetStrategy {
                self_id: s.self_id,
                target: s.target,
                is_complete: s.is_complete,
            }),
            CombatantStrategy::LookAround(s) => CombatantStrategy::LookAround(LookAroundStrategy {
                is_complete: s.is_complete,
            }),
            CombatantStrategy::Noop(_) => CombatantStrategy::Noop(NoopStrategy),
        }
    }
}

/// The events of a ball pick-up: none when the ball is missing or someone holds it; otherwise
/// the pick-up by the combatant.
pub open spec fn pick_up_events(me: CombatantId, ball_id: BallId, ball: Option<BallObject>) -> Option<Seq<SimulationEvent>> {
    match ball {
        None => None,
        Some(b) => if b.held_by is Some {
            None
        } else {
            Some(seq![SimulationEvent::CombatantPickedUpBall { combatant_id: me, ball_id }])
        },
    }
}

/// The events that pending events carry.
pub open spec fn pending_events(s: Seq<PendingSimulationEvent>) -> Seq<SimulationEvent> {
    s.map_values(|p: PendingSimulationEvent| p.0)
}

impl PickUpBallStrategy {
    /// One tick of the pick-up, given the ball as the game has it: the pick-up is proposed (and
    /// the strategy completes) unless the ball is missing or held.
    pub fn tick(&mut self, me: CombatantId, ball: Option<BallObject>) -> (r: Option<Vec<PendingSimulationEvent>>)
        ensures
            match pick_up_events(me, old(self).ball_id, ball) {
                None => r is None && *final(self) == *old(self),
                Some(evs) => r matches Some(v) && pending_events(v@) == evs
                    && *final(self) == (PickUpBallStrategy { is_complete: true, ..*old(self) }),
            },
    {
        match ball {
            None => None,
            Some(b) => {
                if b.held_by.is_some() {
                    return None;
                }
                self.is_complete = true;
                let mut events: Vec<PendingSimulationEvent> = Vec::new();
                events.push(PendingSimulationEvent(SimulationEvent::CombatantPickedUpBall {
                    combatant_id: me,
                    ball_id: self.ball_id,
                }));
                assert(pending_events(events@) =~= seq![SimulationEvent::CombatantPickedUpBall { combatant_id: me, ball_id: self.ball_id }]);
                Some(events)
            },
        }
    }
}

impl ShoveCombatantStrategy {
    /// One tick of the shove: the force (measured in the physics world) is applied to the
    /// target, whose stun starts.
    pub fn tick(&mut self, force_magnitude: u32, force_direction: Vector3Bits) -> (r: Option<Vec<PendingSimulationEvent>>)
        ensures
            *final(self) == *old(self),
            r matches Some(v) && pending_events(v@) == seq![
                SimulationEvent::CombatantShoveForceApplied {
                    shover_combatant_id: old(self).self_combatant_id,
                    recipient_target_id: old(self).target_combatant_id,
                    force_magnitude,
                    force_direction,
                },
                SimulationEvent::CombatantStunned { combatant_id: old(self).target_combatant_id, start: true },
            ],
    {
        let mut events: Vec<PendingSimulationEvent> = Vec::new();
        events.push(PendingSimulationEvent(SimulationEvent::CombatantShoveForceApplied {
            shover_combatant_id: self.self_combatant_id,
            recipient_target_id: self.target_combatant_id,
            force_magnitude,
            force_direction,
        }));
        events.push(PendingSimulationEvent(SimulationEvent::CombatantStunned {
            combatant_id: self.target_combatant_id,
            start: true,
        }));
        assert(pending_events(events@) =~= seq![
            SimulationEvent::CombatantShoveForceApplied {
                shover_combatant_id: self.self_combatant_id,
                recipient_target_id: self.target_combatant_id,
                force_magnitude,
                force_direction,
            },
            SimulationEvent::CombatantStunned { combatant_id: self.target_combatant_id, start: true },
        ]);
        Some(events)
    }
}

impl ThrowBallAtTargetStrategy {
    /// One tick of the throw, given the ball the thrower holds (as the game has it), its team,
    /// and the impulse computed in the physics world. Without a ball, or with no impulse, the
    /// strategy completes without a throw. Otherwise it completes, the ball flies at the target
    /// with that impulse, and a throw at a teammate or at an enemy is proposed.
    pub fn tick<S: Strategy>(
        &mut self,
        game: &mut GameState<S>,
        thrower_team: TeamAlignment,
        held_ball: Option<BallId>,
        impulse: Vector3Bits,
        impulse_is_zero: bool,
    ) -> (r: Option<Vec<PendingSimulationEvent>>)
        requires
            old(game).well_formed(),
            has_combatant(old(game)@, old(self).target),
            held_ball matches Some(b) ==> has_ball(old(game)@, b),
        ensures
            final(game).well_formed(),
            *final(self) == (ThrowBallAtTargetStrategy { is_complete: true, ..*old(self) }),
            match held_ball {
                None => r is None && final(game)@ == old(game)@,
                Some(ball_id) => if impulse_is_zero {
                    r is None && final(game)@ == old(game)@
                } else {
                    &&& final(game)@ == with_ball(
                        old(game)@,
                        ball_id,
                        with_state(
                            ball_of(old(game)@, ball_id),
                            old(game)@.current_tick,
                            BallState::ThrownAtTarget {
                                direction: impulse,
                                thrower_id: old(self).self_id,
                                target_id: old(self).target,
                            },
                        ),
                    )
                    &&& r matches Some(v) && pending_events(v@) == seq![
                        if combatant_of(old(game)@, old(self).target).team == thrower_team {
                            SimulationEvent::BallThrownAtTeammate {
                                thrower_id: old(self).self_id,
                                teammate_id: old(self).target,
                                ball_id,
                                ball_impulse_vector: impulse,
                            }
                        } else {
                            SimulationEvent::BallThrownAtEnemy {
                                thrower_id: old(self).self_id,
                                enemy_id: old(self).target,
                                ball_id,
                                ball_impulse_vector: impulse,
                            }
                        },
                    ]
                },
            },
    {
        self.is_complete = true;
        let ball_id = match held_ball {
            None => {
                return None;
            },
            Some(b) => b,
        };
        let is_same_team = game.combatant(self.target).unwrap().team() == thrower_team;
        if impulse_is_zero {
            return None;
        }
        game.set_ball_state(ball_id, BallState::ThrownAtTarget {
            direction: impulse,
            thrower_id: self.self_id,
            target_id: self.target,
        });
        let event = if is_same_team {
            SimulationEvent::BallThrownAtTeammate {
                thrower_id: self.self_id,
                teammate_id: self.target,
                ball_id,
                ball_impulse_vector: impulse,
            }
        } else {
            SimulationEvent::BallThrownAtEnemy {
                thrower_id: self.self_id,
                enemy_id: self.target,
                ball_id,
                ball_impulse_vector: impulse,
            }
        };
        let mut events: Vec<PendingSimulationEvent> = Vec::new();
        events.push(PendingSimulationEvent(event));
        assert(pending_events(events@) =~= seq![event]);
        Some(events)
    }
}

} // verus!
