use vstd::prelude::*;
use crate::belief::{BeliefTest, BeliefTestView, CombatantId};
use crate::goal::{Goal, GoalBuilder, GoalView, idle_goal};
use crate::satisfiable::{FieldTest, SatisfiableField};

verus! {

/// The priority of catching a ball.
pub const CATCH_BALL_PRIORITY: u32 = 100;

/// The priorities of a combatant's goals, which the caller derives from the combatant's
/// attributes.
#[derive(Debug, Clone, Copy, PartialEq, Eq, Structural)]
pub struct GoalPriorities {
    pub score_points: u32,
    pub throw_at_enemies_on_plates: u32,
    pub throw_at_enemies_off_plates: u32,
    pub shove_combatants_on_plates: u32,
    pub shove_combatants_off_plates: u32,
}

/// The model of a goal with one desired belief.
pub open spec fn goal_of(name: Seq<char>, priority: u32, desired: BeliefTestView, repeatable: bool) -> GoalView {
    GoalView { name, priority, desired_beliefs: seq![desired], repeatable }
}

/// A throw at a combatant who is not a teammate, standing on a plate or not.
pub open spec fn throw_at_enemy(teammates: Seq<CombatantId>, on_plate: FieldTest<Option<u64>>) -> BeliefTestView {
    BeliefTestView::BallThrownAtCombatant {
        ball_id: FieldTest::Ignore,
        thrower_combatant_id: FieldTest::Ignore,
        target_combatant_id: FieldTest::NotIn(teammates),
        target_on_plate: on_plate,
    }
}

/// A shove of a combatant who is not a teammate, standing on a plate or not.
pub open spec fn shove_of_enemy(teammates: Seq<CombatantId>, on_plate: FieldTest<Option<u64>>) -> BeliefTestView {
    BeliefTestView::CombatantShoved { combatant_id: FieldTest::NotIn(teammates), on_plate }
}

/// The goals of a combatant, in order: scoring points on a plate (repeatable), throwing balls at
/// enemies on and off plates, shoving enemies on and off plates, catching a ball, and looking
/// around.
pub open spec fn combatant_goals(me: CombatantId, teammates: Seq<CombatantId>, p: GoalPriorities) -> Seq<GoalView> {
    seq![
        goal_of(
            "Score Points"@,
            p.score_points,
            BeliefTestView::OnPlate { plate_id: FieldTest::Ignore, combatant_id: FieldTest::Exactly(me) },
            true,
        ),
        goal_of(
            "Throw Ball At Enemies On Plates"@,
            p.throw_at_enemies_on_plates,
            throw_at_enemy(teammates, FieldTest::NotExactly(None)),
            false,
        ),
        goal_of(
            "Throw Ball At Enemies Off Plates"@,
            p.throw_at_enemies_off_plates,
            throw_at_enemy(teammates, FieldTest::Exactly(None)),
            false,
        ),
        goal_of(
            "Shove Combatants On Plates"@,
            p.shove_combatants_on_plates,
            shove_of_enemy(teammates, FieldTest::NotExactly(None)),
            false,
        ),
        goal_of(
            "Shove Combatants Off Plates"@,
            p.shove_combatants_off_plates,
            shove_of_enemy(teammates, FieldTest::Exactly(None)),
            false,
        ),
        goal_of(
            "Catch Ball"@,
            CATCH_BALL_PRIORITY,
            BeliefTestView::BallCaught {
                combatant_id: FieldTest::Exactly(me),
                thrower_id: FieldTest::Ignore,
                ball_id: FieldTest::Ignore,
            },
            false,
        ),
        goal_of(
            "Look Around"@,
            1,
            BeliefTestView::ScannedEnvironment { tick: FieldTest::Ignore },
            false,
        ),
    ]
}

/// The models of a list of goals.
pub open spec fn goal_views(goals: Seq<Goal>) -> Seq<GoalView> {
    goals.map_values(|g: Goal| g@)
}

fn copy_ids(ids: &Vec<CombatantId>) -> (r: Vec<CombatantId>)
    ensures
        r@ == ids@,
{
    let mut out: Vec<CombatantId> = Vec::new();
    let mut i: usize = 0;
    while i < ids.len()
        invariant
            i <= ids.len(),
            out@ == ids@.take(i as int),
        decreases ids.len() - i,
    {
        out.push(ids[i]);
        i = i + 1;
        assert(out@ =~= ids@.take(i as int));
    }
    assert(ids@.take(ids.len() as int) =~= ids@);
    out
}

fn one_goal(name: &str, priority: u32, desired: BeliefTest, repeatable: bool) -> (r: Goal)
    ensures
        r@ == goal_of(name@, priority, desired@, repeatable),
{
    let g = GoalBuilder::new().name(name).desired_belief(desired).priority(priority).repeatable(repeatable).build();
    assert(g@ =~= goal_of(name@, priority, desired@, repeatable));
    g
}

/// The goals of a combatant, given the ids of its teammates and the priorities derived from its
/// attributes.
pub fn goals(me: CombatantId, teammate_ids: &Vec<CombatantId>, priorities: GoalPriorities) -> (r: Vec<Goal>)
    ensures
        goal_views(r@) == combatant_goals(me, teammate_ids@, priorities),
{
    let mut out: Vec<Goal> = Vec::new();
    out.push(one_goal(
        "Score Points",
        priorities.score_points,
        BeliefTest::OnPlate { plate_id: SatisfiableField::Ignore, combatant_id: SatisfiableField::Exactly(me) },
        true,
    ));
    out.push(one_goal(
        "Throw Ball At Enemies On Plates",
        priorities.throw_at_enemies_on_plates,
        BeliefTest::BallThrownAtCombatant {
            ball_id: SatisfiableField::Ignore,
            thrower_combatant_id: SatisfiableField::Ignore,
            target_combatant_id: SatisfiableField::NotIn(copy_ids(teammate_ids)),
            target_on_plate: SatisfiableField::NotExactly(None),
        },
        false,
    ));
    out.push(one_goal(
        "Throw Ball At Enemies Off Plates",
        priorities.throw_at_enemies_off_plates,
        BeliefTest::BallThrownAtCombatant {
            ball_id: SatisfiableField::Ignore,
            thrower_combatant_id: SatisfiableField::Ignore,
            target_combatant_id: SatisfiableField::NotIn(copy_ids(teammate_ids)),
            target_on_plate: SatisfiableField::Exactly(None),
        },
        false,
    ));
    out.push(one_goal(
        "Shove Combatants On Plates",
        priorities.shove_combatants_on_plates,
        BeliefTest::CombatantShoved {
            combatant_id: SatisfiableField::NotIn(copy_ids(teammate_ids)),
            on_plate: SatisfiableField::NotExactly(None),
        },
        false,
    ));
    out.push(one_goal(
        "Shove Combatants Off Plates",
        priorities.shove_combatants_off_plates,
        BeliefTest::CombatantShoved {
            combatant_id: SatisfiableField::NotIn(copy_ids(teammate_ids)),
            on_plate: SatisfiableField::Exactly(None),
        },
        false,
    ));
    out.push(one_goal(
        "Catch Ball",
        CATCH_BALL_PRIORITY,
        BeliefTest::BallCaught {
            combatant_id: SatisfiableField::Exactly(me),
            thrower_id: SatisfiableField::Ignore,
            ball_id: SatisfiableField::Ignore,
        },
        false,
    ));
    let idle = idle_goal();
    assert(idle@ =~= goal_of("Look Around"@, 1, BeliefTestView::ScannedEnvironment { tick: FieldTest::Ignore }, false));
    out.push(idle);
    assert(goal_views(out@) =~= combatant_goals(me, teammate_ids@, priorities));
    out
}

} // verus!
