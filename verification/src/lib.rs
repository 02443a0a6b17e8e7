//! Simulation core of a grid-based snake game.
//!
//! A `World` owns the whole game state and advances it one tick at a time on
//! a `width x width` toroidal grid.  The host injects the random capability
//! through the [`rng::RandomSource`] trait and reports elapsed wall-clock
//! time to [`world::World::step`]; everything else is computed here.

pub mod grid;
pub mod rng;
pub mod snake;
pub mod world;

pub use grid::Direction;
pub use rng::FixedRandom;
pub use rng::RandomSource;
pub use snake::SnakeCell;
pub use world::GameStatus;
pub use world::World;
