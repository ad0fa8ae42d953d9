//! The engines: every rule that changes the game state.

pub mod combat_rules;
pub mod combat_actions;
pub mod combat_support;
pub mod combat_frame;
pub mod combat_laws;
pub mod combat_engine;
pub mod combat_replay;
pub mod replay_law;
pub mod tower_engine;
pub mod town_engine;
pub mod monster_engine;
pub mod egg_engine;
pub mod breeding_engine;
pub mod job_engine;
pub mod day_engine;
