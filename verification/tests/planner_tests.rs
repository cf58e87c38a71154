use dystopia::action::ActionBuilder;
use dystopia::belief::{Belief, SatisfiableBelief};
use dystopia::belief_set::BeliefSet;
use dystopia::goal::GoalBuilder;
use dystopia::planner::{make_plan, next_best_goal};
use dystopia::satisfiable::SatisfiableField;

/// The test agent's combatant.
const AGENT_COMBATANT_ID: u64 = 1;

#[test]
fn big_boi_test() {
    let actions = vec![
        ActionBuilder::new()
            .name("A")
            .cost(1)
            .completion(vec![
                Belief::OnPlate { plate_id: 1, combatant_id: 1 },
                Belief::BallIsFlying { ball_id: 1 },
            ])
            .build(),
        ActionBuilder::new()
            .name("B")
            .cost(1)
            .prerequisite(
                SatisfiableBelief::OnPlate()
                    .plate_id(SatisfiableField::Exactly(1))
                    .combatant_id(SatisfiableField::Exactly(1)),
            )
            .completion(vec![Belief::HeldBall { ball_id: 1, combatant_id: 1 }])
            .build(),
        ActionBuilder::new()
            .name("C")
            .cost(1)
            .prerequisite(
                SatisfiableBelief::HeldBall()
                    .ball_id(SatisfiableField::Exactly(1))
                    .combatant_id(SatisfiableField::Exactly(1)),
            )
            .promises(Belief::DirectLineOfSightToCombatant { self_combatant_id: 1, other_combatant_id: 2 })
            .build(),
        ActionBuilder::new()
            .name("D")
            .cost(0)
            .prohibits(
                SatisfiableBelief::OnPlate()
                    .combatant_id(SatisfiableField::Exactly(1))
                    .plate_id(SatisfiableField::Exactly(1)),
            )
            .prerequisite(SatisfiableBelief::BallIsFlying().ball_id(SatisfiableField::Exactly(1)))
            .completion(vec![Belief::DirectLineOfSightToCombatant { self_combatant_id: 1, other_combatant_id: 2 }])
            .build(),
    ];

    let goals = vec![GoalBuilder::new()
        .name("Do C")
        .priority(1)
        .desired_belief(
            SatisfiableBelief::DirectLineOfSightToCombatant()
                .self_combatant_id(SatisfiableField::Exactly(1))
                .other_combatant_id(SatisfiableField::Exactly(2)),
        )
        .build()];

    let agent_beliefs = BeliefSet::empty();
    let plan = make_plan(&agent_beliefs, goals, &actions);
    assert_eq!(plan.plan().len(), 3);
}

#[test]
fn test_no_goals_receive_idle_goal() {
    let agent_beliefs = BeliefSet::empty();
    let no_goals = vec![];
    let best_goal = next_best_goal(&agent_beliefs, no_goals).into_iter().next();
    assert!(best_goal.is_none());
}

#[test]
fn test_best_goal_does_not_have_desired_beliefs_isnt_idle_goal() {
    let agent_beliefs = BeliefSet::empty();
    let expected_goal_name = "TestGoalSelfOnPlate";
    let goals = vec![GoalBuilder::new()
        .name(expected_goal_name)
        .priority(1)
        .desired_belief(SatisfiableBelief::OnPlate())
        .build()];
    let best_goal = next_best_goal(&agent_beliefs, goals).into_iter().next().unwrap();
    assert_eq!(expected_goal_name, best_goal.name());
}

#[test]
fn test_best_goal_has_desired_beliefs_is_idle_goal() {
    let agent_beliefs = BeliefSet::from(&[Belief::OnPlate { combatant_id: AGENT_COMBATANT_ID, plate_id: 1 }]);
    let expected_goal_name = "TestGoalSelfOnPlate";
    let goals = vec![GoalBuilder::new()
        .name(expected_goal_name)
        .priority(1)
        .desired_belief(
            SatisfiableBelief::OnPlate().combatant_id(SatisfiableField::Exactly(AGENT_COMBATANT_ID)),
        )
        .build()];
    let best_goal = next_best_goal(&agent_beliefs, goals).into_iter().next();
    assert!(best_goal.is_none());
}

#[test]
fn test_best_goal_higher_priority_wins() {
    let agent_beliefs = BeliefSet::empty();
    let lower_priority_goal_name = "TestLowerPriorityGoal";
    let higher_priority_goal_name = "TestHigherPriorityGoal";
    let goals = vec![
        GoalBuilder::new()
            .name(lower_priority_goal_name)
            .priority(1)
            .desired_belief(
                SatisfiableBelief::OnPlate().combatant_id(SatisfiableField::Exactly(AGENT_COMBATANT_ID)),
            )
            .build(),
        GoalBuilder::new()
            .name(higher_priority_goal_name)
            .priority(2)
            .desired_belief(
                SatisfiableBelief::HeldBall().combatant_id(SatisfiableField::Exactly(AGENT_COMBATANT_ID)),
            )
            .build(),
    ];
    let best_goal = next_best_goal(&agent_beliefs, goals).into_iter().next().unwrap();
    assert_eq!(higher_priority_goal_name, best_goal.name());
}
