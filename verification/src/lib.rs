//! An unbounded Conway's Game of Life.
//!
//! - [`rules`] states the rules of the game over sets of integer coordinates.
//! - [`point`] and [`point_set`] hold coordinates and sets of them.
//! - [`board`] is the set of live cells, with the walk around a cell's
//!   neighbours.
//! - [`notation`] reads a board from its drawing in text.
//! - [`game`] is a session: a board that is advanced generation by generation.
//! - [`widgets`] works out which cells of a screen show a live cell.
//! - [`control`] says what each key, click and tick does to a session.

pub mod board;
pub mod control;
pub mod game;
pub mod notation;
pub mod point;
pub mod point_set;
pub mod rules;
pub mod widgets;
