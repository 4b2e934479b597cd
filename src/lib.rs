//! Simulation core of an arcade survival game: enemy waves, combat,
//! movement with a spatial grid, progression and the game-state machine.
//!
//! Lengths are integers in thousandths of a world unit and times are
//! nanoseconds, so that every rule can be stated and proved exactly.
pub mod geometry;
pub mod timer;
pub mod entities;
pub mod grid;
pub mod sampling;
pub mod enemy;
pub mod attacks;
pub mod pickups;
pub mod player;
pub mod world;
