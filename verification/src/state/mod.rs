//! The live game state: ledger, roster, eggs, town, tower run and combat.

pub mod keyed;
pub mod resources;
pub mod roster;
pub mod eggs;
pub mod town;
pub mod records;
pub mod tower_map;
pub mod tower_run;
pub mod combat;
pub mod game;
