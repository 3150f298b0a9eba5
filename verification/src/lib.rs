//! A multi-agent serpent simulation on a toroidal grid: agents move, crash,
//! die and respawn, eat food, and steer themselves toward targets, while a
//! half-cell compositor merges two vertically adjacent logical cells into one
//! terminal character.

pub mod esc;
pub mod game;
pub mod map;
pub mod math;
pub mod snake;

pub use math::Point;
