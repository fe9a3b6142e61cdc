//! A grid-based snake simulation: the arena, the snake's heading, the entity
//! store, and the per-tick movement, eating, growth and reset rules.

pub mod error;
pub mod grid;
pub mod direction;
pub mod components;
pub mod store;
pub mod model;
pub mod game;
