use dystopia::config::SimulationConfig;
use dystopia::game_stat::{GameStat, GameStatPointsScored};
use dystopia::simulation_event::{PendingSimulationEvent, SimulationEvent};

#[test]
fn test_default_config_is_valid() {
    assert!(SimulationConfig::default().is_valid());
}

#[test]
fn test_game_stat_points_scored() {
    let combatant_id = 1;
    let events = vec![SimulationEvent::PointsScoredByCombatant {
        plate_id: 1,
        combatant_id,
        points: 2,
    }];

    let value = GameStatPointsScored.calculate(combatant_id, &events);
    assert_eq!(Some(2), value);
}

#[test]
fn test_multiple_combatants() {
    let events = vec![
        SimulationEvent::PointsScoredByCombatant { plate_id: 1, combatant_id: 1, points: 1 },
        SimulationEvent::PointsScoredByCombatant { plate_id: 1, combatant_id: 2, points: 1 },
        SimulationEvent::PointsScoredByCombatant { plate_id: 1, combatant_id: 1, points: 2 },
    ];

    assert_eq!(Some(3), GameStatPointsScored.calculate(1, &events));
    assert_eq!(Some(1), GameStatPointsScored.calculate(2, &events));
    assert_eq!(Some(0), GameStatPointsScored.calculate(3, &events));
}

#[test]
fn points_stat_is_named_points() {
    assert_eq!(GameStatPointsScored.name(), "Points");
}

#[test]
fn points_ignore_other_events() {
    let events = vec![
        SimulationEvent::CombatantOnPlate { combatant_id: 1, plate_id: 3 },
        SimulationEvent::PointsScoredByCombatant { plate_id: 3, combatant_id: 1, points: 2 },
        SimulationEvent::CombatantStunned { combatant_id: 1, start: true },
    ];
    assert_eq!(Some(2), GameStatPointsScored.calculate(1, &events));
    assert_eq!(Some(0), GameStatPointsScored.calculate(1, &vec![]));
}

#[test]
fn config_without_ticks_is_invalid() {
    let config = SimulationConfig::new(0, 2, 60, 0x40a0_0000, 0x42c8_0000, 150);
    assert!(!config.is_valid());
}

#[test]
fn config_without_an_end_is_invalid() {
    let config = SimulationConfig::new(10, 0, 60, 0x40a0_0000, 0x42c8_0000, 0);
    assert!(!config.is_valid());
    let by_score = SimulationConfig::new(10, 0, 0, 0x40a0_0000, 0x42c8_0000, 10);
    assert!(by_score.is_valid());
}

#[test]
fn config_with_periods_of_no_length_is_invalid() {
    let config = SimulationConfig::new(10, 2, 0, 0x40a0_0000, 0x42c8_0000, 150);
    assert!(!config.is_valid());
    let one_period = SimulationConfig::new(10, 1, 0, 0x40a0_0000, 0x42c8_0000, 150);
    assert!(!one_period.is_valid());
    let untimed = SimulationConfig::new(10, 0, 0, 0x40a0_0000, 0x42c8_0000, 150);
    assert!(untimed.is_valid());
}

#[test]
fn config_with_negative_charge_maximum_is_invalid() {
    let negative = SimulationConfig::new(10, 2, 60, 0x40a0_0000, (-1.0f32).to_bits(), 150);
    assert!(!negative.is_valid());
    let negative_zero = SimulationConfig::new(10, 2, 60, 0x40a0_0000, (-0.0f32).to_bits(), 150);
    assert!(negative_zero.is_valid());
    let infinite = SimulationConfig::new(10, 2, 60, 0x40a0_0000, f32::INFINITY.to_bits(), 150);
    assert!(infinite.is_valid());
    let not_a_number = SimulationConfig::new(10, 2, 60, 0x40a0_0000, 0x7fc0_0000, 150);
    assert!(!not_a_number.is_valid());
    let negative_nan = SimulationConfig::new(10, 2, 60, 0x40a0_0000, 0xffc0_0000, 150);
    assert!(!negative_nan.is_valid());
}

#[test]
fn default_config_tick_counts() {
    let config = SimulationConfig::default();
    assert_eq!(config.ticks_per_second(), 10);
    assert_eq!(config.ticks_per_period(), 600);
    assert_eq!(config.ticks_per_game(), 1200);
    assert_eq!(f32::from_bits(config.ball_charge_increase_per_tick()), 5.0);
    assert_eq!(f32::from_bits(config.ball_charge_maximum()), 100.0);
    assert_eq!(config.game_conclusion_score(), 150);
}

#[test]
fn pending_events_compare_by_variant() {
    let a = PendingSimulationEvent(SimulationEvent::CombatantOnPlate { combatant_id: 1, plate_id: 2 });
    let b = PendingSimulationEvent(SimulationEvent::CombatantOnPlate { combatant_id: 5, plate_id: 9 });
    let c = PendingSimulationEvent(SimulationEvent::CombatantOffPlate { combatant_id: 1, plate_id: 2 });
    assert!(a.is_same_variant(&b));
    assert!(!a.is_same_variant(&c));
}

#[test]
fn zero_periods_count_as_one() {
    let config = SimulationConfig::new(10, 0, 60, 0x40a0_0000, 0x42c8_0000, 150);
    assert_eq!(config.ticks_per_period(), 600);
    assert_eq!(config.ticks_per_game(), 600);
    let three = SimulationConfig::new(10, 3, 60, 0x40a0_0000, 0x42c8_0000, 150);
    assert_eq!(three.ticks_per_game(), 1800);
}
