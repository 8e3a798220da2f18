//! Simulation engine of a top-down arcade shooter: a player, enemies that
//! aim and fire at it, projectiles that fly, bounce and hit, and the score and
//! level rules of a session. All quantities are integers in fixed units (see
//! `constants`), so every rule is checked exactly.

pub mod constants;
pub mod vector;
pub mod motion;
pub mod bullet;
pub mod random;
pub mod player;
pub mod enemy;
pub mod game;
pub mod laws;
