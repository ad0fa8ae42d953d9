//! Authored game content: definitions, the validated content set and its lookups.

pub mod schema;
pub mod game_data;
pub mod indexes;
pub mod validation;
pub mod fallback;
