use dystopia::action::ActionBuilder;
use dystopia::belief::{Belief, SatisfiableBelief};
use dystopia::belief_set::BeliefSet;
use dystopia::satisfiable::SatisfiableField;
use dystopia::strategy::{LookAroundStrategy, NoopStrategy};

#[test]
fn no_prereqs_no_prohibited_no_beliefs_allowed() {
    let action = ActionBuilder::empty();
    let result = action.can_perform(&BeliefSet::empty());
    assert!(result);
}

#[test]
fn no_prereqs_no_prohibited_some_beliefs_allowed() {
    let action = ActionBuilder::empty();
    let result = action.can_perform(&BeliefSet::from(&[
        Belief::HeldBall { ball_id: 1, combatant_id: 1 },
        Belief::OnPlate { plate_id: 1, combatant_id: 1 },
    ]));
    assert!(result);
}

#[test]
fn no_prereqs_some_prohibited_no_beliefs_allowed() {
    let action = ActionBuilder::new()
        .prohibited(vec![SatisfiableBelief::OnPlate()])
        .build();
    let result = action.can_perform(&BeliefSet::empty());
    assert!(result);
}

#[test]
fn no_prereqs_some_prohibited_different_belief_types_allowed() {
    let action = ActionBuilder::new()
        .prohibited(vec![SatisfiableBelief::HeldBall()])
        .build();
    let belief_set = BeliefSet::from(&[Belief::OnPlate { plate_id: 1, combatant_id: 1 }]);
    let result = action.can_perform(&belief_set);
    assert!(result);
}

#[test]
fn no_prereqs_some_prohibited_some_beliefs_none_matching_allowed() {
    let prohibited_id = 1;
    let combatant_id = 2;
    let action = ActionBuilder::new()
        .prohibited(vec![
            SatisfiableBelief::HeldBall().combatant_id(SatisfiableField::Exactly(prohibited_id)),
        ])
        .build();
    let belief_set = BeliefSet::from(&[Belief::HeldBall { ball_id: 1, combatant_id }]);
    let result = action.can_perform(&belief_set);
    assert!(result);
}

#[test]
fn no_prereqs_some_prohibited_belief_matches_disallowed() {
    let prohibited_id = 1;
    let action = ActionBuilder::new()
        .prohibited(vec![
            SatisfiableBelief::HeldBall().combatant_id(SatisfiableField::Exactly(prohibited_id)),
        ])
        .build();
    let belief_set = BeliefSet::from(&[Belief::HeldBall { ball_id: 1, combatant_id: prohibited_id }]);
    let result = action.can_perform(&belief_set);
    assert!(!result);
}

#[test]
fn some_prereqs_no_prohibited_no_beliefs_disallowed() {
    let action = ActionBuilder::new()
        .prerequisites(vec![
            SatisfiableBelief::HeldBall().combatant_id(SatisfiableField::Exactly(1)),
        ])
        .build();
    let result = action.can_perform(&BeliefSet::empty());
    assert!(!result);
}

#[test]
fn some_prereqs_no_prohibited_different_types_disallowed() {
    let action = ActionBuilder::new()
        .prerequisites(vec![
            SatisfiableBelief::HeldBall().combatant_id(SatisfiableField::Exactly(1)),
        ])
        .build();
    let belief_set = BeliefSet::from(&[Belief::OnPlate { plate_id: 1, combatant_id: 1 }]);
    let result = action.can_perform(&belief_set);
    assert!(!result);
}

#[test]
fn prereqs_mismatching_disallowed() {
    let prereq_id = 1;
    let combatant_id = 2;
    let action = ActionBuilder::new()
        .prerequisites(vec![
            SatisfiableBelief::HeldBall().combatant_id(SatisfiableField::Exactly(prereq_id)),
        ])
        .build();
    let belief_set = BeliefSet::from(&[Belief::OnPlate { plate_id: 1, combatant_id }]);
    let result = action.can_perform(&belief_set);
    assert!(!result);
}

#[test]
fn some_prereqs_no_prohibited_some_beliefs_some_matching_allowed() {
    let combatant_id = 1;
    let action = ActionBuilder::new()
        .prerequisites(vec![
            SatisfiableBelief::OnPlate().combatant_id(SatisfiableField::Exactly(combatant_id)),
        ])
        .build();
    let belief_set = BeliefSet::from(&[Belief::OnPlate { plate_id: 1, combatant_id }]);
    let result = action.can_perform(&belief_set);
    assert!(result);
}

#[test]
fn completion_belief_satisfies() {
    let combatant_id = 1;
    let ball_id = 1;
    let action = ActionBuilder::new()
        .completion(vec![Belief::HeldBall { combatant_id, ball_id }])
        .build();

    assert!(action.can_satisfy(SatisfiableBelief::HeldBall().into()));
    assert!(action.can_satisfy(
        SatisfiableBelief::HeldBall().combatant_id(SatisfiableField::Exactly(combatant_id)).into()
    ));
    assert!(action.can_satisfy(
        SatisfiableBelief::HeldBall().ball_id(SatisfiableField::Exactly(ball_id)).into()
    ));
    assert!(action.can_satisfy(
        SatisfiableBelief::HeldBall()
            .combatant_id(SatisfiableField::Exactly(combatant_id))
            .ball_id(SatisfiableField::Exactly(ball_id))
            .into()
    ));
}

#[test]
fn promised_belief_satisfies() {
    let combatant_id = 1;
    let ball_id = 1;
    let action = ActionBuilder::new()
        .promised(vec![Belief::HeldBall { combatant_id, ball_id }])
        .build();

    assert!(action.can_satisfy(SatisfiableBelief::HeldBall().into()));
    assert!(action.can_satisfy(
        SatisfiableBelief::HeldBall().combatant_id(SatisfiableField::Exactly(combatant_id)).into()
    ));
    assert!(action.can_satisfy(
        SatisfiableBelief::HeldBall().ball_id(SatisfiableField::Exactly(ball_id)).into()
    ));
    assert!(action.can_satisfy(
        SatisfiableBelief::HeldBall()
            .combatant_id(SatisfiableField::Exactly(combatant_id))
            .ball_id(SatisfiableField::Exactly(ball_id))
            .into()
    ));
}

#[test]
fn strategy_is_complete_action_is_complete() {
    let action = ActionBuilder::new().strategy(NoopStrategy).build();
    let belief_set = BeliefSet::from(&[]);
    assert!(action.is_complete(&belief_set));
}

#[test]
fn strategy_is_not_complete_has_belief_action_is_complete() {
    let plate_id = 1;
    let combatant_id = 1;
    let on_plate_belief = Belief::OnPlate { plate_id, combatant_id };
    let action = ActionBuilder::new()
        .strategy(LookAroundStrategy::new())
        .promised(vec![on_plate_belief.clone()])
        .build();
    let belief_set = BeliefSet::from(&[on_plate_belief]);
    assert!(action.is_complete(&belief_set));
}

#[test]
fn strategy_is_not_complete_missing_belief_action_is_not_complete() {
    let plate_id = 1;
    let combatant_id = 1;
    let action = ActionBuilder::new()
        .strategy(LookAroundStrategy::new())
        .promised(vec![Belief::OnPlate { plate_id, combatant_id }])
        .build();
    let belief_set = BeliefSet::from(&[
        Belief::HeldBall { combatant_id, ball_id: 1 },
        Belief::OnPlate { combatant_id, plate_id: 2 },
    ]);
    assert!(!action.is_complete(&belief_set));
}
