use dystopia::belief::{Belief, SatisfiableBelief, Vector3Bits};
use dystopia::belief_set::BeliefSet;
use dystopia::satisfiable::SatisfiableField;

fn one_zero_zero() -> Vector3Bits {
    Vector3Bits { x: 1.0f32.to_bits(), y: 0.0f32.to_bits(), z: 0.0f32.to_bits() }
}

#[test]
fn test_same_type_all_ignored_satisfies() {
    let belief_set = BeliefSet::from(&vec![Belief::OnPlate { plate_id: 1, combatant_id: 1 }]);
    let satisfiable = SatisfiableBelief::OnPlate();
    assert!(belief_set.can_satisfy(&satisfiable));
}

#[test]
fn test_different_type_doesnt_satisfy() {
    let belief_set = BeliefSet::from(&vec![Belief::BallPosition {
        ball_id: 1,
        position: one_zero_zero(),
        trajectory: one_zero_zero(),
    }]);
    let satisfiable = SatisfiableBelief::OnPlate();
    assert!(!belief_set.can_satisfy(&satisfiable));
}

#[test]
fn test_same_type_exact_plate_id_match_satisfies() {
    let belief_set = BeliefSet::from(&vec![Belief::OnPlate { plate_id: 1, combatant_id: 1 }]);
    let satisfiable = SatisfiableBelief::OnPlate().plate_id(SatisfiableField::Exactly(1));
    assert!(belief_set.can_satisfy(&satisfiable));
}

#[test]
fn test_same_type_exact_combatant_id_match_satisfies() {
    let belief_set = BeliefSet::from(&vec![Belief::OnPlate { plate_id: 1, combatant_id: 1 }]);
    let satisfiable = SatisfiableBelief::OnPlate().combatant_id(SatisfiableField::Exactly(1));
    assert!(belief_set.can_satisfy(&satisfiable));
}

#[test]
fn test_same_type_all_fields_match_satisfies() {
    let belief_set = BeliefSet::from(&vec![Belief::OnPlate { plate_id: 1, combatant_id: 1 }]);
    let satisfiable = SatisfiableBelief::OnPlate()
        .plate_id(SatisfiableField::Exactly(1))
        .combatant_id(SatisfiableField::Exactly(1));
    assert!(belief_set.can_satisfy(&satisfiable));
}

#[test]
fn test_same_type_mismatch_doesnt_satisfy() {
    let belief_set = BeliefSet::from(&vec![Belief::OnPlate { plate_id: 1, combatant_id: 1 }]);
    let satisfiable = SatisfiableBelief::OnPlate()
        .plate_id(SatisfiableField::Exactly(2))
        .combatant_id(SatisfiableField::Exactly(1));
    assert!(!belief_set.can_satisfy(&satisfiable));
}

#[test]
fn all_satisfy_same_plate_id() {
    let belief_set = BeliefSet::from(&vec![
        Belief::OnPlate { plate_id: 1, combatant_id: 1 },
        Belief::OnPlate { plate_id: 1, combatant_id: 2 },
        Belief::OnPlate { plate_id: 1, combatant_id: 3 },
        Belief::OnPlate { plate_id: 1, combatant_id: 4 },
        Belief::OnPlate { plate_id: 1, combatant_id: 5 },
    ]);
    assert!(belief_set.all_satisfy(SatisfiableBelief::OnPlate().plate_id(SatisfiableField::Exactly(1))));
}

#[test]
fn all_satisfy_none_combatant_6() {
    let belief_set = BeliefSet::from(&vec![
        Belief::OnPlate { plate_id: 1, combatant_id: 1 },
        Belief::OnPlate { plate_id: 1, combatant_id: 2 },
        Belief::OnPlate { plate_id: 1, combatant_id: 3 },
        Belief::OnPlate { plate_id: 1, combatant_id: 4 },
        Belief::OnPlate { plate_id: 1, combatant_id: 5 },
    ]);
    assert!(belief_set.all_satisfy(
        SatisfiableBelief::OnPlate().combatant_id(SatisfiableField::NotExactly(6))
    ));
}

#[test]
fn all_satisfy_mixed_beliefs() {
    let belief_set = BeliefSet::from(&vec![
        Belief::OnPlate { plate_id: 1, combatant_id: 1 },
        Belief::OnPlate { plate_id: 1, combatant_id: 2 },
        Belief::HeldBall { ball_id: 1, combatant_id: 1 },
    ]);
    assert!(belief_set.all_satisfy(SatisfiableBelief::OnPlate().plate_id(SatisfiableField::Exactly(1))));
    assert!(belief_set.all_satisfy(
        SatisfiableBelief::OnPlate().combatant_id(SatisfiableField::In(vec![1, 2]))
    ));
    assert!(belief_set.all_satisfy(
        SatisfiableBelief::HeldBall().combatant_id(SatisfiableField::NotIn(vec![2, 3]))
    ));
}

#[test]
fn sourced_beliefs_returned_with_unsourced() {
    let mut belief_set = BeliefSet::from(&vec![Belief::OnPlate { plate_id: 1, combatant_id: 1 }]);
    belief_set.add_beliefs_from_source(1, &vec![Belief::HeldBall { ball_id: 1, combatant_id: 1 }]);
    let beliefs = belief_set.beliefs();
    assert_eq!(beliefs.len(), 2);
}

#[test]
fn consumed_beliefs_correctly_removed() {
    let mut belief_set = BeliefSet::from(&vec![Belief::HeldBall { ball_id: 1, combatant_id: 1 }]);
    assert_eq!(belief_set.beliefs().len(), 1);
    belief_set.remove_beliefs_by_test(
        &SatisfiableBelief::HeldBall()
            .ball_id(SatisfiableField::Exactly(1))
            .combatant_id(SatisfiableField::Exactly(1)),
    );
    assert_eq!(belief_set.beliefs().len(), 0);
}
