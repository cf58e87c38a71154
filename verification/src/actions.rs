use vstd::prelude::*;
use crate::action::{Action, ActionBuilder, ActionView};
use crate::belief_set::BeliefSet;
use crate::goal::Goal;
use crate::planner::{actions_view, goals_view, make_plan};
use crate::strategy::Strategy;
use crate::belief::{
    BallId, Belief, BeliefTest, BeliefTestView, CombatantId, GameTickNumber, PlateId, Vector3Bits,
};
use crate::game_object::GameObjectType;
use crate::satisfiable::{FieldTest, SatisfiableField};
use crate::strategy::{
    CombatantStrategy, CombatantStrategyView, MoveToLocationStrategy, PickUpBallStrategy,
    ShoveCombatantStrategy, ThrowBallAtTargetStrategy, fresh_move,
};
use crate::text::{chars_of, decimal, decimal_chars, string_from_chars, with_number};

verus! {

/// The cost of a shove. Costs are counted in thousandths.
pub const SHOVE_COST: u32 = 5000;

/// The cost of picking up a ball within reach.
pub const PICK_UP_COST: u32 = 1000;

/// A plate a combatant may walk to, with the cost of walking there.
#[derive(Debug, Clone, Copy, PartialEq, Eq, Structural)]
pub struct PlateTarget {
    pub plate_id: PlateId,
    pub location: Vector3Bits,
    pub move_cost: u32,
}

/// Another combatant, with the costs of walking to it and of throwing a ball at it.
#[derive(Debug, Clone, Copy, PartialEq, Eq, Structural)]
pub struct CombatantTarget {
    pub combatant_id: CombatantId,
    pub move_cost: u32,
    pub throw_cost: u32,
}

/// A ball a combatant may walk to, with the cost of walking there.
#[derive(Debug, Clone, Copy, PartialEq, Eq, Structural)]
pub struct BallTarget {
    pub ball_id: BallId,
    pub location: Vector3Bits,
    pub move_cost: u32,
}

/// An action as planned: its model and the model of its strategy.
pub type PlannedAction = (ActionView, CombatantStrategyView);

/// The model of an action with no beliefs attached.
pub open spec fn bare_action(name: Seq<char>, cost: u32) -> ActionView {
    ActionView {
        name,
        cost,
        prerequisites: seq![],
        prohibited: seq![],
        promised: seq![],
        completion: seq![],
        consumed: seq![],
        broadcast: seq![],
    }
}

/// A walk to a plate, promising to stand on it.
pub open spec fn move_to_plate(me: CombatantId, p: PlateTarget) -> PlannedAction {
    (
        ActionView {
            promised: seq![Belief::OnPlate { plate_id: p.plate_id, combatant_id: me }],
            ..bare_action("Move to Plate "@ + decimal(p.plate_id as nat), p.move_cost)
        },
        CombatantStrategyView::MoveToLocation(fresh_move(me, None, p.location, 4)),
    )
}

/// A search for another combatant, promising to see it; it records the scan of the
/// surroundings and uses up earlier scans.
pub open spec fn look_for(me: CombatantId, tick: GameTickNumber, o: CombatantTarget) -> PlannedAction {
    (
        ActionView {
            completion: seq![Belief::ScannedEnvironment { tick }],
            promised: seq![
                Belief::DirectLineOfSightToCombatant {
                    self_combatant_id: me,
                    other_combatant_id: o.combatant_id,
                },
            ],
            consumed: seq![BeliefTestView::ScannedEnvironment { tick: FieldTest::Ignore }],
            ..bare_action("Look For Combatant "@ + decimal(o.combatant_id as nat), o.move_cost)
        },
        CombatantStrategyView::MoveToLocation(
            fresh_move(me, Some(GameObjectType::Combatant(o.combatant_id)), Vector3Bits { x: 0, y: 0, z: 0 }, 4),
        ),
    )
}

/// A walk to another combatant, promising to reach it.
pub open spec fn move_to_combatant(me: CombatantId, o: CombatantTarget) -> PlannedAction {
    (
        ActionView {
            promised: seq![
                Belief::CanReachCombatant { self_combatant_id: me, target_combatant_id: o.combatant_id },
            ],
            ..bare_action("Move to Combatant "@ + decimal(o.combatant_id as nat), o.move_cost)
        },
        CombatantStrategyView::MoveToLocation(
            fresh_move(me, Some(GameObjectType::Combatant(o.combatant_id)), Vector3Bits { x: 0, y: 0, z: 0 }, 8),
        ),
    )
}

/// A shove of another combatant within reach, by a combatant holding no ball.
pub open spec fn shove(me: CombatantId, o: CombatantTarget) -> PlannedAction {
    (
        ActionView {
            prerequisites: seq![
                BeliefTestView::CanReachCombatant {
                    self_combatant_id: FieldTest::Exactly(me),
                    target_combatant_id: FieldTest::Exactly(o.combatant_id),
                },
            ],
            prohibited: seq![
                BeliefTestView::HeldBall { ball_id: FieldTest::Ignore, combatant_id: FieldTest::Exactly(me) },
            ],
            promised: seq![Belief::CombatantShoved { combatant_id: o.combatant_id, on_plate: None }],
            consumed: seq![
                BeliefTestView::CombatantShoved {
                    combatant_id: FieldTest::Exactly(o.combatant_id),
                    on_plate: FieldTest::Ignore,
                },
            ],
            ..bare_action("Shove Combatant "@ + decimal(o.combatant_id as nat), SHOVE_COST)
        },
        CombatantStrategyView::ShoveCombatant {
            self_combatant_id: me,
            target_combatant_id: o.combatant_id,
            is_complete: false,
        },
    )
}

/// A walk to a ball whose position is known, by a combatant holding no ball, promising to have
/// it within reach.
pub open spec fn move_to_ball(me: CombatantId, b: BallTarget) -> PlannedAction {
    (
        ActionView {
            prerequisites: seq![BeliefTestView::BallPosition { ball_id: FieldTest::Exactly(b.ball_id) }],
            prohibited: seq![
                BeliefTestView::HeldBall { ball_id: FieldTest::Ignore, combatant_id: FieldTest::Exactly(me) },
            ],
            promised: seq![Belief::InBallPickupRange { ball_id: b.ball_id, combatant_id: me }],
            ..bare_action("Move to Ball "@ + decimal(b.ball_id as nat), b.move_cost)
        },
        CombatantStrategyView::MoveToLocation(fresh_move(me, None, b.location, 4)),
    )
}

/// Picking up a ball within reach that nobody holds and that is not flying, by a combatant
/// holding no ball; afterwards the combatant holds it.
pub open spec fn pick_up(me: CombatantId, b: BallTarget) -> PlannedAction {
    (
        ActionView {
            prerequisites: seq![
                BeliefTestView::InBallPickupRange {
                    ball_id: FieldTest::Exactly(b.ball_id),
                    combatant_id: FieldTest::Exactly(me),
                },
            ],
            prohibited: seq![
                BeliefTestView::HeldBall { ball_id: FieldTest::Ignore, combatant_id: FieldTest::Exactly(me) },
                BeliefTestView::HeldBall { ball_id: FieldTest::Exactly(b.ball_id), combatant_id: FieldTest::Ignore },
                BeliefTestView::BallIsFlying { ball_id: FieldTest::Exactly(b.ball_id) },
            ],
            completion: seq![Belief::HeldBall { ball_id: b.ball_id, combatant_id: me }],
            ..bare_action("Pick Up Ball "@ + decimal(b.ball_id as nat), PICK_UP_COST)
        },
        CombatantStrategyView::PickUpBall {
            self_combatant_id: me,
            self_combatant_position: b.location,
            self_combatant_reach: 0x3f80_0000,
            ball_id: b.ball_id,
            is_complete: false,
        },
    )
}

/// The name of a throw of a ball at a combatant.
pub open spec fn throw_name(ball_id: BallId, target: CombatantId) -> Seq<char> {
    "Throw Ball "@ + decimal(ball_id as nat) + " at/to Combatant "@ + decimal(target as nat)
}

/// A throw of the held ball at a combatant in sight; it uses up the belief of holding the ball.
pub open spec fn throw(me: CombatantId, b: BallTarget, o: CombatantTarget) -> PlannedAction {
    (
        ActionView {
            prerequisites: seq![
                BeliefTestView::HeldBall {
                    ball_id: FieldTest::Exactly(b.ball_id),
                    combatant_id: FieldTest::Exactly(me),
                },
                BeliefTestView::DirectLineOfSightToCombatant {
                    self_combatant_id: FieldTest::Exactly(me),
                    other_combatant_id: FieldTest::Exactly(o.combatant_id),
                },
            ],
            completion: seq![
                Belief::BallThrownAtCombatant {
                    ball_id: b.ball_id,
                    thrower_combatant_id: me,
                    target_combatant_id: o.combatant_id,
                    target_on_plate: None,
                },
            ],
            consumed: seq![
                BeliefTestView::HeldBall {
                    ball_id: FieldTest::Exactly(b.ball_id),
                    combatant_id: FieldTest::Exactly(me),
                },
                BeliefTestView::BallThrownAtCombatant {
                    ball_id: FieldTest::Exactly(b.ball_id),
                    thrower_combatant_id: FieldTest::Exactly(me),
                    target_combatant_id: FieldTest::Exactly(o.combatant_id),
                    target_on_plate: FieldTest::Ignore,
                },
            ],
            ..bare_action(throw_name(b.ball_id, o.combatant_id), o.throw_cost)
        },
        CombatantStrategyView::ThrowBallAtTarget { self_id: me, target: o.combatant_id, is_complete: false },
    )
}

/// The actions about the other combatants: for each one other than `me`, looking for it,
/// walking to it and shoving it.
pub open spec fn combatant_actions(
    me: CombatantId,
    tick: GameTickNumber,
    others: Seq<CombatantTarget>,
) -> Seq<PlannedAction>
    decreases others.len(),
{
    if others.len() == 0 {
        seq![]
    } else {
        let o = others.last();
        combatant_actions(me, tick, others.drop_last()) + if o.combatant_id == me {
            seq![]
        } else {
            seq![look_for(me, tick, o), move_to_combatant(me, o), shove(me, o)]
        }
    }
}

/// The throws of a ball at each combatant other than `me`.
pub open spec fn throw_actions(me: CombatantId, b: BallTarget, others: Seq<CombatantTarget>) -> Seq<
    PlannedAction,
>
    decreases others.len(),
{
    if others.len() == 0 {
        seq![]
    } else {
        let o = others.last();
        throw_actions(me, b, others.drop_last()) + if o.combatant_id == me {
            seq![]
        } else {
            seq![throw(me, b, o)]
        }
    }
}

/// The actions about the balls: for each, walking to it, picking it up and throwing it at each
/// other combatant.
pub open spec fn ball_actions(me: CombatantId, balls: Seq<BallTarget>, others: Seq<CombatantTarget>) -> Seq<
    PlannedAction,
>
    decreases balls.len(),
{
    if balls.len() == 0 {
        seq![]
    } else {
        let b = balls.last();
        ball_actions(me, balls.drop_last(), others) + seq![move_to_ball(me, b), pick_up(me, b)]
            + throw_actions(me, b, others)
    }
}

/// Every action a combatant may take: walking to each plate, then the actions about the other
/// combatants, then those about the balls.
pub open spec fn all_actions(
    me: CombatantId,
    tick: GameTickNumber,
    plates: Seq<PlateTarget>,
    others: Seq<CombatantTarget>,
    balls: Seq<BallTarget>,
) -> Seq<PlannedAction> {
    plates.map_values(|p: PlateTarget| move_to_plate(me, p)) + combatant_actions(me, tick, others)
        + ball_actions(me, balls, others)
}

/// The plan of an action: its model and its strategy's.
pub open spec fn planned(a: Action<CombatantStrategy>) -> PlannedAction {
    (a@, a.spec_strategy()@)
}

/// The plans of a list of actions.
pub open spec fn planned_all(actions: Seq<Action<CombatantStrategy>>) -> Seq<PlannedAction> {
    actions.map_values(|a: Action<CombatantStrategy>| planned(a))
}

fn push_planned(out: &mut Vec<Action<CombatantStrategy>>, a: Action<CombatantStrategy>)
    ensures
        planned_all(final(out)@) == planned_all(old(out)@).push(planned(a)),
{
    out.push(a);
    assert(planned_all(out@) =~= planned_all(old(out)@).push(planned(a)));
}

fn plate_action(me: CombatantId, p: PlateTarget) -> (r: Action<CombatantStrategy>)
    ensures
        planned(r) == move_to_plate(me, p),
{
    let name = with_number("Move to Plate ", p.plate_id);
    let strategy = MoveToLocationStrategy::new(me, p.location, 4);
    let a = ActionBuilder::new().name(name.as_str()).strategy(CombatantStrategy::MoveToLocation(strategy)).cost(
        p.move_cost,
    ).promises(Belief::OnPlate { plate_id: p.plate_id, combatant_id: me }).build();
    assert(a@ =~= move_to_plate(me, p).0);
    assert(a.spec_strategy()@ =~= move_to_plate(me, p).1);
    a
}

fn look_for_action(me: CombatantId, tick: GameTickNumber, o: CombatantTarget) -> (r: Action<
    CombatantStrategy,
>)
    ensures
        planned(r) == look_for(me, tick, o),
{
    let name = with_number("Look For Combatant ", o.combatant_id);
    let strategy = MoveToLocationStrategy::new_with_target_object(
        me,
        GameObjectType::Combatant(o.combatant_id),
        4,
    );
    let mut completion: Vec<Belief> = Vec::new();
    completion.push(Belief::ScannedEnvironment { tick });
    let a = ActionBuilder::new().name(name.as_str()).strategy(CombatantStrategy::MoveToLocation(strategy)).cost(
        o.move_cost,
    ).completion(completion).promises(
        Belief::DirectLineOfSightToCombatant { self_combatant_id: me, other_combatant_id: o.combatant_id },
    ).consumes(BeliefTest::ScannedEnvironment { tick: SatisfiableField::Ignore }).build();
    assert(a@ =~= look_for(me, tick, o).0);
    assert(a.spec_strategy()@ =~= look_for(me, tick, o).1);
    a
}

fn move_to_combatant_action(me: CombatantId, o: CombatantTarget) -> (r: Action<CombatantStrategy>)
    ensures
        planned(r) == move_to_combatant(me, o),
{
    let name = with_number("Move to Combatant ", o.combatant_id);
    let strategy = MoveToLocationStrategy::new_with_target_object(
        me,
        GameObjectType::Combatant(o.combatant_id),
        8,
    );
    let a = ActionBuilder::new().name(name.as_str()).strategy(CombatantStrategy::MoveToLocation(strategy)).cost(
        o.move_cost,
    ).promises(
        Belief::CanReachCombatant { self_combatant_id: me, target_combatant_id: o.combatant_id },
    ).build();
    assert(a@ =~= move_to_combatant(me, o).0);
    assert(a.spec_strategy()@ =~= move_to_combatant(me, o).1);
    a
}

fn shove_action(me: CombatantId, o: CombatantTarget) -> (r: Action<CombatantStrategy>)
    ensures
        planned(r) == shove(me, o),
{
    let name = with_number("Shove Combatant ", o.combatant_id);
    let strategy = ShoveCombatantStrategy::new(me, o.combatant_id);
    let a = ActionBuilder::new().name(name.as_str()).strategy(CombatantStrategy::ShoveCombatant(strategy)).cost(
        SHOVE_COST,
    ).prerequisite(
        BeliefTest::CanReachCombatant {
            self_combatant_id: SatisfiableField::Exactly(me),
            target_combatant_id: SatisfiableField::Exactly(o.combatant_id),
        },
    ).prohibits(
        BeliefTest::HeldBall { ball_id: SatisfiableField::Ignore, combatant_id: SatisfiableField::Exactly(me) },
    ).promises(Belief::CombatantShoved { combatant_id: o.combatant_id, on_plate: None }).consumes(
        BeliefTest::CombatantShoved {
            combatant_id: SatisfiableField::Exactly(o.combatant_id),
            on_plate: SatisfiableField::Ignore,
        },
    ).build();
    assert(a@ =~= shove(me, o).0);
    assert(a.spec_strategy()@ =~= shove(me, o).1);
    a
}

fn move_to_ball_action(me: CombatantId, b: BallTarget) -> (r: Action<CombatantStrategy>)
    ensures
        planned(r) == move_to_ball(me, b),
{
    let name = with_number("Move to Ball ", b.ball_id as u64);
    let strategy = MoveToLocationStrategy::new(me, b.location, 4);
    let a = ActionBuilder::new().name(name.as_str()).strategy(CombatantStrategy::MoveToLocation(strategy)).cost(
        b.move_cost,
    ).prerequisite(BeliefTest::BallPosition { ball_id: SatisfiableField::Exactly(b.ball_id) }).prohibits(
        BeliefTest::HeldBall { ball_id: SatisfiableField::Ignore, combatant_id: SatisfiableField::Exactly(me) },
    ).promises(Belief::InBallPickupRange { ball_id: b.ball_id, combatant_id: me }).build();
    assert(a@ =~= move_to_ball(me, b).0);
    assert(a.spec_strategy()@ =~= move_to_ball(me, b).1);
    a
}

fn pick_up_action(me: CombatantId, b: BallTarget) -> (r: Action<CombatantStrategy>)
    ensures
        planned(r) == pick_up(me, b),
{
    let name = with_number("Pick Up Ball ", b.ball_id as u64);
    let strategy = PickUpBallStrategy::new(me, b.location, b.ball_id);
    let mut completion: Vec<Belief> = Vec::new();
    completion.push(Belief::HeldBall { ball_id: b.ball_id, combatant_id: me });
    let a = ActionBuilder::new().name(name.as_str()).strategy(CombatantStrategy::PickUpBall(strategy)).cost(
        PICK_UP_COST,
    ).prerequisite(
        BeliefTest::InBallPickupRange {
            ball_id: SatisfiableField::Exactly(b.ball_id),
            combatant_id: SatisfiableField::Exactly(me),
        },
    ).prohibits(
        BeliefTest::HeldBall { ball_id: SatisfiableField::Ignore, combatant_id: SatisfiableField::Exactly(me) },
    ).prohibits(
        BeliefTest::HeldBall {
            ball_id: SatisfiableField::Exactly(b.ball_id),
            combatant_id: SatisfiableField::Ignore,
        },
    ).prohibits(BeliefTest::BallIsFlying { ball_id: SatisfiableField::Exactly(b.ball_id) }).completion(
        completion,
    ).build();
    assert(a@ =~= pick_up(me, b).0);
    assert(a.spec_strategy()@ =~= pick_up(me, b).1);
    a
}

fn throw_action(me: CombatantId, b: BallTarget, o: CombatantTarget) -> (r: Action<CombatantStrategy>)
    ensures
        planned(r) == throw(me, b, o),
{
    let mut chars = chars_of("Throw Ball ");
    let mut ball_digits = decimal_chars(b.ball_id as u64);
    chars.append(&mut ball_digits);
    let mut middle = chars_of(" at/to Combatant ");
    chars.append(&mut middle);
    let mut target_digits = decimal_chars(o.combatant_id);
    chars.append(&mut target_digits);
    let name = string_from_chars(&chars);
    assert(name@ =~= throw_name(b.ball_id, o.combatant_id));
    let strategy = ThrowBallAtTargetStrategy::new(me, o.combatant_id);
    let mut completion: Vec<Belief> = Vec::new();
    completion.push(
        Belief::BallThrownAtCombatant {
            ball_id: b.ball_id,
            thrower_combatant_id: me,
            target_combatant_id: o.combatant_id,
            target_on_plate: None,
        },
    );
    let a = ActionBuilder::new().name(name.as_str()).strategy(CombatantStrategy::ThrowBallAtTarget(strategy)).cost(
        o.throw_cost,
    ).prerequisite(
        BeliefTest::HeldBall {
            ball_id: SatisfiableField::Exactly(b.ball_id),
            combatant_id: SatisfiableField::Exactly(me),
        },
    ).prerequisite(
        BeliefTest::DirectLineOfSightToCombatant {
            self_combatant_id: SatisfiableField::Exactly(me),
            other_combatant_id: SatisfiableField::Exactly(o.combatant_id),
        },
    ).completion(completion).consumes(
        BeliefTest::HeldBall {
            ball_id: SatisfiableField::Exactly(b.ball_id),
            combatant_id: SatisfiableField::Exactly(me),
        },
    ).consumes(
        BeliefTest::BallThrownAtCombatant {
            ball_id: SatisfiableField::Exactly(b.ball_id),
            thrower_combatant_id: SatisfiableField::Exactly(me),
            target_combatant_id: SatisfiableField::Exactly(o.combatant_id),
            target_on_plate: SatisfiableField::Ignore,
        },
    ).build();
    assert(a@ =~= throw(me, b, o).0);
    assert(a.spec_strategy()@ =~= throw(me, b, o).1);
    a
}

/// Every action a combatant may take, given the plates, the combatants (itself among them or
/// not) and the balls of the game, each with the costs measured in the physics world. Costs are
/// counted in thousandths.
pub fn actions(
    me: CombatantId,
    current_tick: GameTickNumber,
    plates: &Vec<PlateTarget>,
    combatants: &Vec<CombatantTarget>,
    balls: &Vec<BallTarget>,
) -> (r: Vec<Action<CombatantStrategy>>)
    ensures
        planned_all(r@) == all_actions(me, current_tick, plates@, combatants@, balls@),
{
    let mut out: Vec<Action<CombatantStrategy>> = Vec::new();
    let mut i: usize = 0;
    while i < plates.len()
        invariant
            i <= plates.len(),
            planned_all(out@) == plates@.take(i as int).map_values(|p: PlateTarget| move_to_plate(me, p)),
        decreases plates.len() - i,
    {
        push_planned(&mut out, plate_action(me, plates[i]));
        i = i + 1;
        assert(plates@.take(i as int).map_values(|p: PlateTarget| move_to_plate(me, p)) =~= plates@.take(
            i - 1,
        ).map_values(|p: PlateTarget| move_to_plate(me, p)).push(move_to_plate(me, plates@[i - 1])));
    }
    assert(plates@.take(plates.len() as int) =~= plates@);
    let ghost front = planned_all(out@);
    let mut j: usize = 0;
    while j < combatants.len()
        invariant
            j <= combatants.len(),
            planned_all(out@) == front + combatant_actions(me, current_tick, combatants@.take(j as int)),
        decreases combatants.len() - j,
    {
        let o = combatants[j];
        proof {
            assert(combatants@.take(j + 1).drop_last() =~= combatants@.take(j as int));
        }
        if o.combatant_id != me {
            push_planned(&mut out, look_for_action(me, current_tick, o));
            push_planned(&mut out, move_to_combatant_action(me, o));
            push_planned(&mut out, shove_action(me, o));
        }
        j = j + 1;
        assert(planned_all(out@) =~= front + combatant_actions(me, current_tick, combatants@.take(j as int)));
    }
    assert(combatants@.take(combatants.len() as int) =~= combatants@);
    let ghost middle = planned_all(out@);
    let mut k: usize = 0;
    while k < balls.len()
        invariant
            k <= balls.len(),
            planned_all(out@) == middle + ball_actions(me, balls@.take(k as int), combatants@),
        decreases balls.len() - k,
    {
        let b = balls[k];
        proof {
            assert(balls@.take(k + 1).drop_last() =~= balls@.take(k as int));
        }
        push_planned(&mut out, move_to_ball_action(me, b));
        push_planned(&mut out, pick_up_action(me, b));
        let ghost before_throws = planned_all(out@);
        let mut t: usize = 0;
        while t < combatants.len()
            invariant
                t <= combatants.len(),
                planned_all(out@) == before_throws + throw_actions(me, b, combatants@.take(t as int)),
            decreases combatants.len() - t,
        {
            let o = combatants[t];
            proof {
                assert(combatants@.take(t + 1).drop_last() =~= combatants@.take(t as int));
            }
            if o.combatant_id != me {
                push_planned(&mut out, throw_action(me, b, o));
            }
            t = t + 1;
            assert(planned_all(out@) =~= before_throws + throw_actions(me, b, combatants@.take(t as int)));
        }
        assert(combatants@.take(combatants.len() as int) =~= combatants@);
        k = k + 1;
        assert(planned_all(out@) =~= middle + ball_actions(me, balls@.take(k as int), combatants@));
    }
    assert(balls@.take(balls.len() as int) =~= balls@);
    assert(planned_all(out@) =~= all_actions(me, current_tick, plates@, combatants@, balls@));
    out
}

/// The plans of the actions at the given positions, in order (positions outside the list are
/// passed over).
pub open spec fn chosen(actions: Seq<Action<CombatantStrategy>>, positions: Seq<usize>) -> Seq<PlannedAction>
    decreases positions.len(),
{
    if positions.len() == 0 {
        seq![]
    } else {
        chosen(actions, positions.drop_last()) + if positions.last() < actions.len() {
            seq![planned(actions[positions.last() as int])]
        } else {
            seq![]
        }
    }
}

/// A copy of an action.
pub fn duplicate_action(a: &Action<CombatantStrategy>) -> (r: Action<CombatantStrategy>)
    ensures
        planned(r) == planned(*a),
{
    let s = a.strategy().duplicate();
    a.with_strategy(s)
}

/// The plan an agent with these beliefs follows towards its goals, as the actions to perform
/// (from the last to the first), chosen by the planner among the actions it may take.
pub fn plan(agent_beliefs: &BeliefSet, goals: Vec<Goal>, actions: &Vec<Action<CombatantStrategy>>) -> (r: Vec<
    Action<CombatantStrategy>,
>)
    requires
        agent_beliefs.well_formed(),
        forall|i: int| 0 <= i < goals@.len() ==> (#[trigger] goals@[i])@.desired_beliefs.len() > 0,
    ensures
        planned_all(r@) == chosen(
            actions@,
            crate::planner::planned(agent_beliefs@, goals_view(goals@), actions_view(actions@)),
        ),
{
    let chosen_plan = make_plan(agent_beliefs, goals, actions);
    let positions = chosen_plan.plan();
    let mut out: Vec<Action<CombatantStrategy>> = Vec::new();
    let mut i: usize = 0;
    while i < positions.len()
        invariant
            i <= positions.len(),
            planned_all(out@) == chosen(actions@, positions@.take(i as int)),
        decreases positions.len() - i,
    {
        proof {
            assert(positions@.take(i + 1).drop_last() =~= positions@.take(i as int));
        }
        let k = positions[i];
        if k < actions.len() {
            push_planned(&mut out, duplicate_action(&actions[k]));
        }
        i = i + 1;
        assert(planned_all(out@) =~= chosen(actions@, positions@.take(i as int)));
    }
    assert(positions@.take(positions.len() as int) =~= positions@);
    out
}

} // verus!
