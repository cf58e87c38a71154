use dystopia::action::ActionBuilder;
use dystopia::ball::{ball_tick, BallObject, BallState, ExplosionHit, HELD_BALL_CHARGE};
use dystopia::belief::{Belief, ExpiringBelief, SatisfiableBelief, Vector3Bits};
use dystopia::combatant::{with_position_update, CombatantObject};
use dystopia::config::SimulationConfig;
use dystopia::game_log::{CombatantStatline, GameLog, GameTick};
use dystopia::game_object::{GameObjectType, TeamAlignment};
use dystopia::game_state::GameState;
use dystopia::satisfiable::SatisfiableField;
use dystopia::sensors::{field_of_view_beliefs, proximity_beliefs, SeenObject};
use dystopia::setup::assign_starts;
use dystopia::simulation::{
    classify_collision, handle_collision_events, plate_occupants, plate_scoring_events, tick_status, Collision,
    CollisionOutcome,
};
use dystopia::simulation_event::{PendingSimulationEvent, SimulationEvent};
use dystopia::strategy::{CombatantStrategy, LookAroundStrategy, NoopStrategy};

fn v(x: f32, y: f32, z: f32) -> Vector3Bits {
    Vector3Bits { x: x.to_bits(), y: y.to_bits(), z: z.to_bits() }
}

/// Two home combatants (ids 1 and 3) and one away combatant (id 2), two balls (ids 1 and 2).
fn small_game() -> GameState<CombatantStrategy> {
    let (game, placed) = GameState::<CombatantStrategy>::from_arena(2, &vec![true, false, true], 2, 1);
    assert_eq!(placed.len(), 3);
    game
}

fn pending(e: SimulationEvent) -> PendingSimulationEvent {
    PendingSimulationEvent(e)
}

#[test]
fn arena_setup_numbers_balls_and_starts() {
    let game = small_game();
    assert_eq!(game.combatant_ids(), vec![1, 2, 3]);
    assert_eq!(game.team_combatants(TeamAlignment::Home), vec![1, 3]);
    assert_eq!(game.team_combatants(TeamAlignment::Away), vec![2]);
    let balls = game.balls();
    assert_eq!(balls.len(), 2);
    assert_eq!(balls[0].id, 1);
    assert_eq!(balls[1].id, 2);
    assert_eq!(balls[0].state, BallState::Idle);
    assert_eq!(game.current_tick, 0);
    assert_eq!((game.home_points, game.away_points), (0, 0));
}

#[test]
fn starts_without_combatants_stay_empty() {
    let placed = assign_starts(&vec![true, true, false, true], 2, 0);
    let ids: Vec<u64> = placed.iter().map(|a| a.combatant_id).collect();
    assert_eq!(ids, vec![1, 2]);
    assert_eq!(placed[0].roster_index, 1);
    assert_eq!(placed[1].roster_index, 0);
}

#[test]
fn ball_changes_hands_only_when_idle() {
    let mut ball = BallObject::new(4, 0);
    assert!(!ball.is_dirty());
    ball.set_held_by(Some(9), 3);
    assert_eq!(ball.state, BallState::Held { holder_id: 9 });
    assert_eq!(ball.held_by, Some(9));
    assert_eq!(ball.charge, HELD_BALL_CHARGE);
    assert_eq!(f32::from_bits(ball.charge), 30.0);
    assert_eq!(ball.state_tick_stamp, 3);
    assert!(ball.is_dirty());
    assert_eq!(ball.holder(), Some(9));

    let before = ball;
    ball.set_held_by(None, 5);
    assert_eq!(ball, before);

    let (old_state, old_tick) = ball.change_state(6, BallState::Explode);
    assert_eq!(old_state, BallState::Held { holder_id: 9 });
    assert_eq!(old_tick, 3);
    assert_eq!(ball.state_tick_stamp, 6);
    assert!(!ball.gains_charge());
    ball.change_state(7, BallState::ThrownAtTarget { direction: v(1.0, 0.0, 0.0), thrower_id: 1, target_id: 2 });
    assert!(ball.gains_charge());
}

#[test]
fn exploding_ball_reports_hits_then_position() {
    let mut ball = BallObject::new(2, 0);
    ball.change_state(1, BallState::Explode);
    let hits = vec![ExplosionHit { combatant_id: 7, force_magnitude: 10.0f32.to_bits(), force_direction: v(0.0, 0.0, 1.0) }];
    let events = ball_tick(&ball, &hits, v(9.0, 9.0, 9.0), v(1.0, 2.0, 3.0));
    assert_eq!(events.len(), 4);
    assert_eq!(events[0], SimulationEvent::BallExplosion { ball_id: 2, charge: 0 });
    assert!(matches!(events[1], SimulationEvent::BallExplosionForceApplied { combatant_id: 7, .. }));
    assert_eq!(events[2], SimulationEvent::CombatantStunned { combatant_id: 7, start: true });
    assert_eq!(events[3], SimulationEvent::BallPositionUpdate { ball_id: 2, position: v(1.0, 2.0, 3.0), charge: 0 });

    let mut held = BallObject::new(3, 0);
    held.set_held_by(Some(1), 0);
    let events = ball_tick(&held, &hits, v(9.0, 9.0, 9.0), v(1.0, 2.0, 3.0));
    assert_eq!(events, vec![SimulationEvent::BallPositionUpdate { ball_id: 3, position: v(9.0, 9.0, 9.0), charge: HELD_BALL_CHARGE }]);
}

#[test]
fn plates_are_stepped_on_and_off() {
    let mut c = CombatantObject::<NoopStrategy>::new(5, TeamAlignment::Away);
    c.set_on_plate(8);
    assert_eq!(c.plate(), Some(8));
    assert!(c.beliefs().holds_belief(&Belief::OnPlate { plate_id: 8, combatant_id: 5 }));
    c.set_off_plate();
    assert_eq!(c.plate(), None);
    assert!(!c.beliefs().holds_belief(&Belief::OnPlate { plate_id: 8, combatant_id: 5 }));
    c.set_off_plate();
    assert_eq!(c.plate(), None);
}

#[test]
fn stun_abandons_the_plan() {
    let mut c = CombatantObject::<NoopStrategy>::new(1, TeamAlignment::Home);
    c.set_plan(vec![ActionBuilder::new().name("a").build(), ActionBuilder::new().name("b").build()]);
    assert!(c.advance_plan());
    assert_eq!(c.current_action().unwrap().name(), "b");
    assert_eq!(c.plan_len(), 1);
    c.set_stunned(true);
    assert!(c.is_stunned());
    assert!(c.current_action().is_none());
    assert_eq!(c.plan_len(), 0);
    assert!(c.needs_plan());
    assert_eq!(c.stunned_tick_events(true), vec![SimulationEvent::CombatantStunned { combatant_id: 1, start: false }]);
    assert!(c.stunned_tick_events(false).is_empty());
}

#[test]
fn finished_action_rewards_and_consumes_beliefs() {
    let mut c = CombatantObject::<NoopStrategy>::new(1, TeamAlignment::Home);
    c.share_belief(ExpiringBelief::new(Belief::ScannedEnvironment { tick: 3 }, None));
    let action = ActionBuilder::new()
        .name("catch")
        .completion(vec![
            Belief::BallCaught { combatant_id: 1, thrower_id: 4, ball_id: 2 },
            Belief::BallCaught { combatant_id: 6, thrower_id: 4, ball_id: 2 },
        ])
        .broadcasts(Belief::CombatantIsStunned { combatant_id: 9 })
        .consumes(SatisfiableBelief::ScannedEnvironment())
        .build();
    let events = c.conclude_action(action);
    assert_eq!(
        events,
        vec![
            SimulationEvent::BroadcastBelief { from_combatant_id: 1, belief: Belief::CombatantIsStunned { combatant_id: 9 } },
            SimulationEvent::ThrownBallCaught { thrower_id: 4, catcher_id: 1, ball_id: 2 },
        ]
    );
    let beliefs = c.beliefs();
    assert!(beliefs.holds_belief(&Belief::BallCaught { combatant_id: 1, thrower_id: 4, ball_id: 2 }));
    assert!(!beliefs.holds_belief(&Belief::ScannedEnvironment { tick: 3 }));
    assert_eq!(c.completed_action().unwrap().name(), "catch");
    assert!(c.current_action().is_none());
}

#[test]
fn unfinished_action_stays_current() {
    let mut c = CombatantObject::<LookAroundStrategy>::new(1, TeamAlignment::Home);
    let action = ActionBuilder::new().name("look").strategy(LookAroundStrategy::new()).build();
    let events = c.conclude_action(action);
    assert!(events.is_empty());
    assert_eq!(c.current_action().unwrap().name(), "look");
    assert!(c.completed_action().is_none());
}

#[test]
fn position_update_is_added_once() {
    let events = with_position_update(3, vec![SimulationEvent::CombatantStunned { combatant_id: 3, start: false }], v(1.0, 0.0, 0.0));
    assert_eq!(events.len(), 2);
    assert_eq!(events[0], SimulationEvent::CombatantPositionUpdate { combatant_id: 3, position: v(1.0, 0.0, 0.0) });
    let already = vec![SimulationEvent::CombatantPositionUpdate { combatant_id: 3, position: v(2.0, 0.0, 0.0) }];
    assert_eq!(with_position_update(3, already.clone(), v(1.0, 0.0, 0.0)), already);
}

#[test]
fn picking_up_needs_reach_and_no_stun() {
    let mut game = small_game();
    let (ok, follow) = game.simulate_event(&pending(SimulationEvent::CombatantPickedUpBall { combatant_id: 1, ball_id: 1 }), false);
    assert!(!ok);
    assert!(follow.is_empty());
    assert_eq!(game.ball(1).unwrap().held_by, None);

    game.simulate_event(&pending(SimulationEvent::BallExplosionForceApplied { ball_id: 2, combatant_id: 1, force_magnitude: 0, force_direction: v(0.0, 0.0, 0.0) }), true);
    assert!(game.combatant(1).unwrap().is_stunned());
    let (ok, _) = game.simulate_event(&pending(SimulationEvent::CombatantPickedUpBall { combatant_id: 1, ball_id: 1 }), true);
    assert!(!ok);

    let (ok, _) = game.simulate_event(&pending(SimulationEvent::CombatantPickedUpBall { combatant_id: 2, ball_id: 1 }), true);
    assert!(ok);
    assert_eq!(game.combatant(2).unwrap().ball(), Some(1));
    assert_eq!(game.ball(1).unwrap().state, BallState::Held { holder_id: 2 });
}

#[test]
fn stun_drops_the_held_ball() {
    let mut game = small_game();
    game.simulate_event(&pending(SimulationEvent::CombatantPickedUpBall { combatant_id: 3, ball_id: 2 }), true);
    let (ok, follow) = game.simulate_event(&pending(SimulationEvent::CombatantStunned { combatant_id: 3, start: true }), true);
    assert!(ok);
    assert_eq!(follow.len(), 1);
    assert_eq!(follow[0].0, SimulationEvent::CombatantDroppedBall { combatant_id: 3, ball_id: 2 });
    assert_eq!(game.combatant(3).unwrap().ball(), None);
    assert!(!game.combatant(3).unwrap().beliefs().can_satisfy(&SatisfiableBelief::HeldBall().combatant_id(SatisfiableField::Exactly(3))));
    // Only an idle ball changes hands: the held ball is let go of by the follow-up drop.
    assert_eq!(game.ball(2).unwrap().state, BallState::Held { holder_id: 3 });
    let (ok, _) = game.simulate_event(&follow[0], true);
    assert!(ok);
    assert_eq!(game.ball(2).unwrap().state, BallState::Idle);
}

#[test]
fn points_go_to_the_team_of_the_scorer() {
    let mut game = small_game();
    game.simulate_event(&pending(SimulationEvent::PointsScoredByCombatant { plate_id: 1, combatant_id: 1, points: 2 }), true);
    game.simulate_event(&pending(SimulationEvent::PointsScoredByCombatant { plate_id: 1, combatant_id: 2, points: 1 }), true);
    game.simulate_event(&pending(SimulationEvent::PointsScoredByCombatant { plate_id: 1, combatant_id: 3, points: 2 }), true);
    assert_eq!((game.home_points, game.away_points), (4, 1));
}

#[test]
fn broadcast_reaches_everyone_but_the_sender() {
    let mut game = small_game();
    game.advance_tick();
    let belief = Belief::CombatantIsStunned { combatant_id: 2 };
    game.simulate_event(&pending(SimulationEvent::BroadcastBelief { from_combatant_id: 1, belief }), true);
    assert!(!game.combatant(1).unwrap().beliefs().holds_belief(&belief));
    assert!(game.combatant(2).unwrap().beliefs().holds_belief(&belief));
    assert!(game.combatant(3).unwrap().beliefs().holds_belief(&belief));
}

#[test]
fn thrown_ball_is_released_and_explosions_reset_it() {
    let mut game = small_game();
    game.simulate_event(&pending(SimulationEvent::CombatantPickedUpBall { combatant_id: 2, ball_id: 1 }), true);
    game.set_ball_state(1, BallState::ThrownAtTarget { direction: v(1.0, 0.0, 0.0), thrower_id: 2, target_id: 1 });
    game.simulate_event(&pending(SimulationEvent::BallThrownAtEnemy { thrower_id: 2, enemy_id: 1, ball_id: 1, ball_impulse_vector: v(1.0, 0.0, 0.0) }), true);
    assert_eq!(game.combatant(2).unwrap().ball(), None);
    game.simulate_event(&pending(SimulationEvent::BallCollisionArena { thrower_id: 2, original_target_id: 1, ball_id: 1 }), true);
    assert_eq!(game.ball(1).unwrap().state, BallState::Explode);
    game.set_ball_charge(1, 50.0f32.to_bits());
    game.simulate_event(&pending(SimulationEvent::BallExplosion { ball_id: 1, charge: 50.0f32.to_bits() }), true);
    assert_eq!(game.ball(1).unwrap().state, BallState::Idle);
    assert_eq!(game.ball(1).unwrap().charge, 0);
}

#[test]
fn committing_keeps_only_events_that_take_effect() {
    let mut game = small_game();
    game.simulate_event(&pending(SimulationEvent::CombatantPickedUpBall { combatant_id: 1, ball_id: 1 }), true);
    let events = vec![
        pending(SimulationEvent::CombatantPickedUpBall { combatant_id: 2, ball_id: 2 }),
        pending(SimulationEvent::CombatantOnPlate { combatant_id: 3, plate_id: 4 }),
        pending(SimulationEvent::CombatantStunned { combatant_id: 1, start: true }),
        pending(SimulationEvent::CombatantOnPlate { combatant_id: 42, plate_id: 4 }),
    ];
    let committed = game.commit_events(&events, &vec![false, true, true, true]);
    assert_eq!(
        committed,
        vec![
            SimulationEvent::CombatantOnPlate { combatant_id: 3, plate_id: 4 },
            SimulationEvent::CombatantStunned { combatant_id: 1, start: true },
            SimulationEvent::CombatantDroppedBall { combatant_id: 1, ball_id: 1 },
        ]
    );
    assert_eq!(game.combatant(3).unwrap().plate(), Some(4));
    assert_eq!(game.combatant(1).unwrap().ball(), None);
}

#[test]
fn removed_combatant_can_be_put_back() {
    let mut game = small_game();
    let c = game.remove_combatant(2).unwrap();
    assert!(game.combatant(2).is_none());
    assert_eq!(game.combatant_ids(), vec![1, 3]);
    assert!(game.insert_combatant(c));
    assert_eq!(game.combatant_ids(), vec![1, 3, 2]);
    let twin = CombatantObject::<CombatantStrategy>::new(3, TeamAlignment::Home);
    assert!(!game.insert_combatant(twin));
}

#[test]
fn collisions_are_classified() {
    let mut game = small_game();
    game.simulate_event(&pending(SimulationEvent::CombatantPickedUpBall { combatant_id: 2, ball_id: 1 }), true);
    game.set_ball_state(1, BallState::ThrownAtTarget { direction: v(1.0, 0.0, 0.0), thrower_id: 2, target_id: 1 });

    let hit = classify_collision(&game, GameObjectType::Ball(1), GameObjectType::Combatant(1), true);
    assert_eq!(hit, CollisionOutcome::Event(SimulationEvent::BallCollisionEnemy { thrower_id: 2, enemy_id: 1, ball_id: 1 }));
    let swapped = classify_collision(&game, GameObjectType::Combatant(1), GameObjectType::Ball(1), true);
    assert_eq!(hit, swapped);
    assert_eq!(classify_collision(&game, GameObjectType::Ball(1), GameObjectType::Combatant(2), true), CollisionOutcome::Ignored);
    assert_eq!(classify_collision(&game, GameObjectType::Ball(1), GameObjectType::Combatant(1), false), CollisionOutcome::Ignored);
    assert_eq!(
        classify_collision(&game, GameObjectType::Barrier, GameObjectType::Ball(1), true),
        CollisionOutcome::Event(SimulationEvent::BallCollisionArena { thrower_id: 2, original_target_id: 1, ball_id: 1 })
    );
    assert_eq!(classify_collision(&game, GameObjectType::Barrier, GameObjectType::Ball(2), true), CollisionOutcome::Ignored);
    assert_eq!(
        classify_collision(&game, GameObjectType::Plate(5), GameObjectType::Combatant(3), true),
        CollisionOutcome::Event(SimulationEvent::CombatantOnPlate { combatant_id: 3, plate_id: 5 })
    );
    assert_eq!(
        classify_collision(&game, GameObjectType::Combatant(3), GameObjectType::Plate(5), false),
        CollisionOutcome::Event(SimulationEvent::CombatantOffPlate { combatant_id: 3, plate_id: 5 })
    );
    assert_eq!(classify_collision(&game, GameObjectType::Combatant(3), GameObjectType::Barrier, true), CollisionOutcome::Damage(3));
    assert_eq!(classify_collision(&game, GameObjectType::Combatant(3), GameObjectType::Barrier, false), CollisionOutcome::Ignored);
    assert_eq!(classify_collision(&game, GameObjectType::Invalid, GameObjectType::Combatant(3), true), CollisionOutcome::Ignored);
    assert_eq!(classify_collision(&game, GameObjectType::BallSpawn, GameObjectType::Combatant(3), true), CollisionOutcome::Ignored);
    assert_eq!(classify_collision(&game, GameObjectType::Plate(5), GameObjectType::Ball(2), true), CollisionOutcome::Ignored);

    let outcomes = handle_collision_events(
        &game,
        &vec![
            Collision { first: None, second: Some(GameObjectType::Barrier), started: true },
            Collision { first: Some(GameObjectType::Combatant(1)), second: Some(GameObjectType::Barrier), started: true },
        ],
    );
    assert_eq!(outcomes, vec![CollisionOutcome::Ignored, CollisionOutcome::Damage(1)]);
}

#[test]
fn owned_plates_score_double() {
    let home_only = vec![(1, TeamAlignment::Home), (3, TeamAlignment::Home)];
    let events = plate_scoring_events(7, &home_only);
    assert_eq!(
        events,
        vec![
            SimulationEvent::PointsScoredByCombatant { plate_id: 7, combatant_id: 1, points: 2 },
            SimulationEvent::PointsScoredByCombatant { plate_id: 7, combatant_id: 3, points: 2 },
        ]
    );
    let contested = vec![(1, TeamAlignment::Home), (2, TeamAlignment::Away)];
    let events = plate_scoring_events(7, &contested);
    assert!(events.iter().all(|e| matches!(e, SimulationEvent::PointsScoredByCombatant { points: 1, .. })));
    assert!(plate_scoring_events(7, &vec![]).is_empty());

    let game = small_game();
    let occupants = plate_occupants(
        &game,
        &vec![GameObjectType::Combatant(2), GameObjectType::Ball(1), GameObjectType::Combatant(99), GameObjectType::Combatant(3)],
    );
    assert_eq!(occupants, vec![(2, TeamAlignment::Away), (3, TeamAlignment::Home)]);
}

#[test]
fn tick_status_follows_the_config() {
    let config = SimulationConfig::default();
    let mid = tick_status(&config, 600, 0, 0);
    assert!(mid.is_halftime);
    assert!(!mid.is_end_of_game);
    assert!(mid.is_scoring_tick);
    let odd = tick_status(&config, 601, 10, 0);
    assert!(!odd.is_scoring_tick);
    assert!(!odd.is_end_of_game);
    assert!(tick_status(&config, 1200, 0, 0).is_end_of_game);
    assert!(tick_status(&config, 7, 3, 150).is_end_of_game);
    let untimed_score = SimulationConfig::new(10, 2, 60, 0, 0, 0);
    assert!(!tick_status(&untimed_score, 7, 500, 0).is_end_of_game);
    let single_period = SimulationConfig::new(10, 0, 60, 0, 0, 150);
    assert!(tick_status(&single_period, 300, 0, 0).is_halftime);
    assert!(tick_status(&single_period, 600, 0, 0).is_end_of_game);
}

fn tick(n: u32, events: Vec<SimulationEvent>) -> GameTick {
    GameTick { tick_number: n, simulation_events: events, is_halftime: false, is_end_of_game: false }
}

#[test]
fn statlines_count_through_a_tick() {
    let log = GameLog::from_ticks(
        vec![
            tick(100, vec![
                SimulationEvent::PointsScoredByCombatant { plate_id: 1, combatant_id: 1, points: 40 },
                SimulationEvent::BallThrownAtEnemy { thrower_id: 1, enemy_id: 2, ball_id: 1, ball_impulse_vector: v(0.0, 0.0, 0.0) },
                SimulationEvent::BallCollisionEnemy { thrower_id: 1, enemy_id: 2, ball_id: 1 },
            ]),
            tick(101, vec![
                SimulationEvent::PointsScoredByCombatant { plate_id: 1, combatant_id: 1, points: 2 },
                SimulationEvent::CombatantShoveForceApplied { shover_combatant_id: 2, recipient_target_id: 1, force_magnitude: 0, force_direction: v(0.0, 0.0, 0.0) },
            ]),
        ],
        9,
        [0; 32],
        42,
        0,
        vec![1, 2],
    );
    let through_100 = CombatantStatline::from_game_log_through_tick(&log, 100);
    assert_eq!(through_100[0].points_scored, 40);
    assert_eq!(through_100[0].balls_thrown, 1);
    assert_eq!(through_100[0].throws_hit, 1);
    assert_eq!(through_100[1].combatants_shoved, 0);
    let all = CombatantStatline::from_game_log(&log);
    assert_eq!(all[0].points_scored, 42);
    assert_eq!(all[1].combatant_id, 2);
    assert_eq!(all[1].combatants_shoved, 1);
    assert_eq!(log.home_score(), 42);
    assert_eq!(log.game_id(), 9);
    let single = CombatantStatline::combatant_statline_from_game_log(&log, 1, None);
    assert_eq!(single, all[0]);
}

#[test]
fn field_of_view_stops_at_barriers() {
    let mut game = small_game();
    game.simulate_event(&pending(SimulationEvent::CombatantPickedUpBall { combatant_id: 2, ball_id: 1 }), true);
    game.simulate_event(&pending(SimulationEvent::CombatantOnPlate { combatant_id: 2, plate_id: 6 }), true);
    let seen_two = SeenObject { kind: GameObjectType::Combatant(2), position: v(0.0, 0.0, 5.0), velocity: v(0.0, 0.0, 0.0) };
    let wall = SeenObject { kind: GameObjectType::Barrier, position: v(0.0, 0.0, 2.0), velocity: v(0.0, 0.0, 0.0) };
    let clear = field_of_view_beliefs(&game, 1, &vec![vec![seen_two]], 10);
    let beliefs: Vec<Belief> = clear.iter().map(|e| e.belief).collect();
    assert_eq!(
        beliefs,
        vec![
            Belief::CombatantPosition { combatant_id: 2, position: v(0.0, 0.0, 5.0) },
            Belief::HeldBall { ball_id: 1, combatant_id: 2 },
            Belief::OnPlate { plate_id: 6, combatant_id: 2 },
            Belief::DirectLineOfSightToCombatant { self_combatant_id: 1, other_combatant_id: 2 },
        ]
    );
    assert_eq!(clear[0].expires_on_tick, Some(22));
    assert_eq!(clear[3].expires_on_tick, Some(11));
    let blocked = field_of_view_beliefs(&game, 1, &vec![vec![wall, seen_two]], 10);
    assert_eq!(blocked.len(), 3);
    assert!(!blocked.iter().any(|e| matches!(e.belief, Belief::DirectLineOfSightToCombatant { .. })));

    let ball = SeenObject { kind: GameObjectType::Ball(1), position: v(1.0, 0.0, 0.0), velocity: v(0.0, 1.0, 0.0) };
    let seen_ball = field_of_view_beliefs(&game, 1, &vec![vec![ball]], 10);
    assert_eq!(seen_ball[0].belief, Belief::BallPosition { ball_id: 1, position: v(1.0, 0.0, 0.0), trajectory: v(0.0, 1.0, 0.0) });
    assert_eq!(seen_ball[1], ExpiringBelief::new(Belief::HeldBall { ball_id: 1, combatant_id: 2 }, Some(14)));
}

#[test]
fn proximity_reports_reachable_objects() {
    let beliefs = proximity_beliefs(4, &vec![GameObjectType::Ball(2), GameObjectType::Barrier, GameObjectType::Combatant(7)], 20);
    assert_eq!(
        beliefs,
        vec![
            ExpiringBelief::new(Belief::InBallPickupRange { ball_id: 2, combatant_id: 4 }, Some(32)),
            ExpiringBelief::new(Belief::CanReachCombatant { self_combatant_id: 4, target_combatant_id: 7 }, Some(21)),
        ]
    );
}

#[test]
fn refreshing_drops_stale_and_unheld_beliefs() {
    let mut c = CombatantObject::<NoopStrategy>::new(1, TeamAlignment::Home);
    c.share_belief(ExpiringBelief::new(Belief::HeldBall { ball_id: 1, combatant_id: 1 }, None));
    c.absorb_sensor_reading(3, &[ExpiringBelief::new(Belief::BallIsFlying { ball_id: 2 }, Some(5))], false);
    c.absorb_sensor_reading(3, &[ExpiringBelief::new(Belief::BallIsFlying { ball_id: 3 }, Some(50))], false);
    c.refresh_beliefs(10);
    let beliefs = c.beliefs();
    assert!(!beliefs.holds_belief(&Belief::HeldBall { ball_id: 1, combatant_id: 1 }));
    assert!(!beliefs.holds_belief(&Belief::BallIsFlying { ball_id: 2 }));
    assert!(beliefs.holds_belief(&Belief::BallIsFlying { ball_id: 3 }));
    c.forget_beliefs(&SatisfiableBelief::BallIsFlying().ball_id(SatisfiableField::Exactly(3)));
    assert!(!c.beliefs().holds_belief(&Belief::BallIsFlying { ball_id: 3 }));
}
