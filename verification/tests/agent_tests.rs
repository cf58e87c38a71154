use dystopia::actions::{actions, plan, BallTarget, CombatantTarget, PlateTarget, PICK_UP_COST, SHOVE_COST};
use dystopia::ball::BallObject;
use dystopia::belief::{Belief, Vector3Bits};
use dystopia::belief_set::BeliefSet;
use dystopia::game_object::TeamAlignment;
use dystopia::game_state::GameState;
use dystopia::goals::{goals, GoalPriorities, CATCH_BALL_PRIORITY};
use dystopia::simulation_event::SimulationEvent;
use dystopia::strategy::{
    CombatantStrategy, MoveToLocationStrategy, PickUpBallStrategy, ShoveCombatantStrategy, ThrowBallAtTargetStrategy,
};

fn v(x: f32, y: f32, z: f32) -> Vector3Bits {
    Vector3Bits { x: x.to_bits(), y: y.to_bits(), z: z.to_bits() }
}

fn priorities() -> GoalPriorities {
    GoalPriorities {
        score_points: 90,
        throw_at_enemies_on_plates: 80,
        throw_at_enemies_off_plates: 70,
        shove_combatants_on_plates: 60,
        shove_combatants_off_plates: 50,
    }
}

#[test]
fn actions_cover_plates_others_and_balls() {
    let plates = vec![PlateTarget { plate_id: 3, location: v(1.0, 0.0, 1.0), move_cost: 2500 }];
    let combatants = vec![
        CombatantTarget { combatant_id: 1, move_cost: 0, throw_cost: 0 },
        CombatantTarget { combatant_id: 2, move_cost: 1500, throw_cost: 750 },
    ];
    let balls = vec![BallTarget { ball_id: 5, location: v(0.0, 0.0, 2.0), move_cost: 1200 }];
    let all = actions(1, 7, &plates, &combatants, &balls);
    let names: Vec<String> = all.iter().map(|a| a.name()).collect();
    assert_eq!(
        names,
        vec![
            "Move to Plate 3",
            "Look For Combatant 2",
            "Move to Combatant 2",
            "Shove Combatant 2",
            "Move to Ball 5",
            "Pick Up Ball 5",
            "Throw Ball 5 at/to Combatant 2",
        ]
    );
    let costs: Vec<u32> = all.iter().map(|a| a.cost()).collect();
    assert_eq!(costs, vec![2500, 1500, 1500, SHOVE_COST, 1200, PICK_UP_COST, 750]);
    assert_eq!(all[0].promised_beliefs().clone(), vec![Belief::OnPlate { plate_id: 3, combatant_id: 1 }]);
    assert_eq!(all[1].completion_beliefs().clone(), vec![Belief::ScannedEnvironment { tick: 7 }]);
    assert!(matches!(all[3].strategy(), CombatantStrategy::ShoveCombatant(_)));
    assert!(matches!(all[6].strategy(), CombatantStrategy::ThrowBallAtTarget(_)));
}

#[test]
fn no_targets_give_no_actions() {
    let all = actions(4, 0, &vec![], &vec![CombatantTarget { combatant_id: 4, move_cost: 0, throw_cost: 0 }], &vec![]);
    assert!(all.is_empty());
}

#[test]
fn combatant_goals_in_order() {
    let gs = goals(1, &vec![1, 3], priorities());
    let named: Vec<(String, u32, bool)> = gs.iter().map(|g| (g.name(), g.priority(), g.repeatable())).collect();
    assert_eq!(
        named,
        vec![
            ("Score Points".to_string(), 90, true),
            ("Throw Ball At Enemies On Plates".to_string(), 80, false),
            ("Throw Ball At Enemies Off Plates".to_string(), 70, false),
            ("Shove Combatants On Plates".to_string(), 60, false),
            ("Shove Combatants Off Plates".to_string(), 50, false),
            ("Catch Ball".to_string(), CATCH_BALL_PRIORITY, false),
            ("Look Around".to_string(), 1, false),
        ]
    );
    assert!(gs.iter().all(|g| g.desired_beliefs().len() == 1));
}

#[test]
fn planner_walks_to_a_plate_to_score() {
    let plates = vec![PlateTarget { plate_id: 3, location: v(1.0, 0.0, 1.0), move_cost: 2500 }];
    let all = actions(1, 0, &plates, &vec![], &vec![]);
    let score = goals(1, &vec![1], priorities()).into_iter().next().unwrap();
    let chosen = plan(&BeliefSet::empty(), vec![score], &all);
    let names: Vec<String> = chosen.iter().map(|a| a.name()).collect();
    assert_eq!(names, vec!["Move to Plate 3"]);
}

#[test]
fn pick_up_needs_a_free_ball() {
    let mut strategy = PickUpBallStrategy::new(2, v(0.0, 0.0, 0.0), 4);
    assert!(strategy.tick(2, None).is_none());
    assert!(!strategy.is_complete);

    let mut held = BallObject::new(4, 0);
    held.set_held_by(Some(3), 1);
    assert!(strategy.tick(2, Some(held)).is_none());
    assert!(!strategy.is_complete);

    let events = strategy.tick(2, Some(BallObject::new(4, 0))).unwrap();
    assert_eq!(events.len(), 1);
    assert_eq!(events[0].0, SimulationEvent::CombatantPickedUpBall { combatant_id: 2, ball_id: 4 });
    assert!(strategy.is_complete);
}

#[test]
fn shove_pushes_and_stuns_the_target() {
    let mut strategy = ShoveCombatantStrategy::new(1, 2);
    let direction = v(0.0, 0.0, 1.0);
    let events = strategy.tick(3000, direction).unwrap();
    let kinds: Vec<SimulationEvent> = events.iter().map(|e| e.0).collect();
    assert_eq!(
        kinds,
        vec![
            SimulationEvent::CombatantShoveForceApplied {
                shover_combatant_id: 1,
                recipient_target_id: 2,
                force_magnitude: 3000,
                force_direction: direction,
            },
            SimulationEvent::CombatantStunned { combatant_id: 2, start: true },
        ]
    );
}

/// Two home combatants (ids 1 and 3) and one away combatant (id 2), two balls (ids 1 and 2).
fn small_game() -> GameState<CombatantStrategy> {
    let (game, _) = GameState::<CombatantStrategy>::from_arena(2, &vec![true, false, true], 2, 1);
    game
}

#[test]
fn throw_is_at_enemy_or_teammate() {
    let mut game = small_game();
    let impulse = v(2.0, 1.0, 0.0);
    let mut at_enemy = ThrowBallAtTargetStrategy::new(1, 2);
    let events = at_enemy.tick(&mut game, TeamAlignment::Home, Some(1), impulse, false).unwrap();
    assert_eq!(
        events[0].0,
        SimulationEvent::BallThrownAtEnemy { thrower_id: 1, enemy_id: 2, ball_id: 1, ball_impulse_vector: impulse }
    );
    assert!(at_enemy.is_complete);
    assert_eq!(
        game.ball(1).unwrap().state,
        dystopia::ball::BallState::ThrownAtTarget { direction: impulse, thrower_id: 1, target_id: 2 }
    );

    let mut at_teammate = ThrowBallAtTargetStrategy::new(1, 3);
    let events = at_teammate.tick(&mut game, TeamAlignment::Home, Some(2), impulse, false).unwrap();
    assert_eq!(
        events[0].0,
        SimulationEvent::BallThrownAtTeammate { thrower_id: 1, teammate_id: 3, ball_id: 2, ball_impulse_vector: impulse }
    );
}

#[test]
fn throw_without_ball_or_impulse_does_nothing() {
    let mut game = small_game();
    let mut no_ball = ThrowBallAtTargetStrategy::new(1, 2);
    assert!(no_ball.tick(&mut game, TeamAlignment::Home, None, v(1.0, 0.0, 0.0), false).is_none());
    assert!(no_ball.is_complete);
    let mut no_impulse = ThrowBallAtTargetStrategy::new(1, 2);
    assert!(no_impulse.tick(&mut game, TeamAlignment::Home, Some(1), v(0.0, 0.0, 0.0), true).is_none());
    assert_eq!(game.ball(1).unwrap().state, dystopia::ball::BallState::Idle);
}

#[test]
fn walking_uses_the_tick_budget_and_completes_at_the_target() {
    let mut walk = MoveToLocationStrategy::new(1, v(3.0, 0.0, 0.0), 2);
    assert!(walk.begin_tick());
    assert_eq!(walk.max_ticks, 1);
    walk.path = vec![v(2.0, 0.0, 0.0)];
    walk.next_node = Some(v(1.0, 0.0, 0.0));
    assert!(!walk.begin_tick());
    assert_eq!(walk.max_ticks, 0);
    assert!(!walk.begin_tick());
    assert_eq!(walk.max_ticks, 0);
    walk.end_tick(false);
    assert!(!walk.is_complete);
    walk.end_tick(true);
    assert!(walk.is_complete);

    let mut tracking = MoveToLocationStrategy::new_with_target_tracking(1, dystopia::game_object::GameObjectType::Combatant(2));
    assert!(tracking.begin_tick());
    tracking.next_node = Some(v(1.0, 0.0, 0.0));
    assert!(!tracking.begin_tick());
    tracking.next_node = None;
    tracking.end_tick(false);
    assert!(tracking.is_complete);
}
