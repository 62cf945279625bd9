//! A falling-block puzzle engine: the geometry of a grid, the additive
//! collision test, the seven tetrominoes with their rotations, the board with
//! lock-in and row clearing, and the state machine that drives one match.

pub mod block;
pub mod board;
pub mod cell;
pub mod game;
pub mod geometry;
pub mod grid;
pub mod laws;
pub mod weight;

pub use crate::cell::State;
pub use crate::game::{
    Game, Input, InputMove, InputMoveDirection, InputRotate, InputRotateDirection,
};
pub use crate::geometry::Position;
