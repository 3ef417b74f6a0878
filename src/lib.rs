//! Simulation core of a multiplayer snake arena on a finite grid.
//!
//! Turns run through fixed stages: pre-turn (food and respawns), request (agents
//! choose moves), fix-up (no reversals, default moves), simulate (movement) and
//! post-simulate (collisions, feeding, food rot, deaths, respawn countdowns).
//! The `Arena` owns every player, snake and food item, and `Turn` decides when a
//! turn is ready. External agents exchange the lines built in `protocol`.
pub mod ai;
pub mod arena;
pub mod collisions;
pub mod death;
pub mod direction;
pub mod food;
pub mod grid;
pub mod players;
pub mod protocol;
pub mod random;
pub mod replays;
pub mod snakes;
pub mod turns;
