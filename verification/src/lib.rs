//! A verified implementation of Conway's Game of Life on a fixed-size
//! square grid with no wraparound at the edges.

pub mod decimal;
pub mod game_of_life;
pub mod lemmas;
