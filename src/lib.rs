//! A three-by-three, two-player board game: board state, move rules,
//! win and draw detection, move parsing and text rendering.

pub mod board;
pub mod game;
pub mod render;
pub mod input;
