use dystopia::belief::{ExpiringBelief, SatisfiableBelief, Vector3Bits};
use dystopia::game_object::GameObjectType;
use dystopia::game_state::GameState;
use dystopia::satisfiable::{SatisfiabilityTest, SatisfiableField};
use dystopia::sensors::{field_of_view_beliefs, SeenObject};
use dystopia::strategy::CombatantStrategy;

fn v(x: f32, y: f32, z: f32) -> Vector3Bits {
    Vector3Bits { x: x.to_bits(), y: y.to_bits(), z: z.to_bits() }
}

fn still(kind: GameObjectType, position: Vector3Bits) -> SeenObject {
    SeenObject { kind, position, velocity: v(0.0, 0.0, 0.0) }
}

fn knows_position_of(beliefs: &[ExpiringBelief], test: SatisfiableField<u64>) -> bool {
    let position_test = SatisfiableBelief::CombatantPosition().combatant_id(test);
    beliefs.iter().any(|belief| position_test.satisfied_by(belief.belief))
}

/// Combatants 1 and 2 play at home, combatant 3 away.
fn three_combatants() -> GameState<CombatantStrategy> {
    let (game, _) = GameState::<CombatantStrategy>::from_arena(0, &vec![true, true, false], 2, 1);
    game
}

#[test]
fn should_see_combatant_directly_in_front() {
    let game = three_combatants();
    // Combatant 1 stands at (1, 0, 0) facing combatant 2 at (1, 0, 3); combatant 3 at
    // (1, 0, -3) is behind it, so only combatant 2 is within the field of view.
    let in_front = vec![vec![still(GameObjectType::Combatant(2), v(1.0, 0.0, 3.0))]];
    let new_beliefs = field_of_view_beliefs(&game, 1, &in_front, 1);
    let knows_combatant_2_position = knows_position_of(&new_beliefs, SatisfiableField::Exactly(2));
    let knows_no_other_positions = !knows_position_of(&new_beliefs, SatisfiableField::NotExactly(2));
    assert!(knows_combatant_2_position && knows_no_other_positions);

    // Turned around, combatant 1 faces combatant 3 only.
    let behind = vec![vec![still(GameObjectType::Combatant(3), v(1.0, 0.0, -3.0))]];
    let new_beliefs = field_of_view_beliefs(&game, 1, &behind, 1);
    let knows_combatant_3_position = knows_position_of(&new_beliefs, SatisfiableField::Exactly(3));
    let knows_no_other_positions = !knows_position_of(&new_beliefs, SatisfiableField::NotExactly(3));
    assert!(knows_combatant_3_position && knows_no_other_positions);
}

#[test]
fn should_not_see_through_walls() {
    let game = three_combatants();
    // The ray from combatant 1 at (1, 0, 0) to combatant 2 at (1, 0, 3) first meets the wall
    // standing at (1, 0, 1.5).
    let through_wall = vec![vec![
        still(GameObjectType::Barrier, v(1.0, 0.0, 1.5)),
        still(GameObjectType::Combatant(2), v(1.0, 0.0, 3.0)),
    ]];
    let new_beliefs = field_of_view_beliefs(&game, 1, &through_wall, 1);
    let knows_combatant_2_position = knows_position_of(&new_beliefs, SatisfiableField::Exactly(2));
    let line_of_sight_test = SatisfiableBelief::DirectLineOfSightToCombatant();
    let no_direct_los = !new_beliefs.iter().any(|belief| line_of_sight_test.satisfied_by(belief.belief));
    assert!(
        knows_combatant_2_position && no_direct_los,
        "knows_combatant_2_position={knows_combatant_2_position}, no_direct_los={no_direct_los}"
    );
}
