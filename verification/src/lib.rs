//! Simulation core of a real-time territorial-conquest game: the world
//! model, the tick engine, combat resolution and the autonomous players.
pub mod types;
pub mod engine;
pub mod combat;
pub mod tick;
pub mod ai;
pub mod session;
pub mod validity;
