//! A verified model of a classic grid "snake" arcade game.
//!
//! The snake occupies a sequence of positions on a cell grid and advances
//! one step per tick; food items sit at grid-aligned positions and are
//! consumed when the snake's head comes within one cell size of them.
//! All game rules (movement, growth, direction validation, consumption,
//! boundary and self-collision resets) are verified; rendering, input and
//! frame timing live outside the library.

pub mod food;
pub mod game;
pub mod pos;
pub mod rng;
pub mod snake;
