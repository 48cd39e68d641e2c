//! Core simulation of a grid-based snake game.
//!
//! The snake occupies a sequence of integer grid cells and moves on a bounded
//! arena; it grows when it eats food that appears at random unoccupied cells,
//! and the game ends (and later restarts) when the snake hits the border or
//! its own body.  Everything here is pure state-machine logic: rendering and
//! input capture live outside the library and only exchange plain values
//! with it.

pub mod draw;
pub mod game;
pub mod rng;
pub mod snake;
