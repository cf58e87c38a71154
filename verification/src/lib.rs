//! Decision logic of the Dystopia dodgeball simulation: satisfiability tests, agent beliefs,
//! goal-oriented action planning, scoring and game statistics.

pub mod satisfiable;
pub mod text;
pub mod belief;
pub mod belief_set;
pub mod game_object;
pub mod strategy;
pub mod goal;
pub mod action;
pub mod planner;
pub mod nats;
pub mod service;
pub mod generator;
pub mod simulation_event;
pub mod game_stat;
pub mod config;
pub mod ball;
pub mod combatant;
pub mod game_state;
pub mod simulation;
pub mod game_log;
pub mod actions;
pub mod goals;
pub mod setup;
pub mod sensors;
pub mod attributes;
pub mod openapi;
