//! A grid-based snake game: movement, growth, collisions and food placement,
//! with their rules stated as contracts.
pub mod direction;
pub mod snake;
pub mod food;
pub mod game;
