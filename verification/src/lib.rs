//! Hatchspire: a monster-raising town and tower simulation whose rules are
//! stated as contracts and proved with Verus.

pub mod arith;
pub mod text;
pub mod seqs;
pub mod data;
pub mod state;
pub mod engine;
pub mod assets;
