//! Conway's Game of Life on an unbounded signed 64-bit grid.
//!
//! The library is organised from leaf to root: `Point` (a grid coordinate),
//! `Grid` (the sparse set of live points, with parsing from pattern text),
//! `Viewport` and `Game` (generation stepping and rendering of a bounded
//! window), and `Session` (the command protocol that drives one `Game`).
//! Every executable function carries a contract; the transport, file
//! handling and terminal shells live outside this crate.

pub mod chars;
pub mod config;
pub mod errors;
pub mod frame;
pub mod game;
pub mod grid;
pub mod point;
pub mod session;
pub mod ui;
mod trusted;

pub use config::{GameConfig, Settings};
pub use errors::AppError;
pub use game::{Game, View, Viewport};
pub use grid::Grid;
pub use point::Point;
pub use session::{Cmd, Message, Session};
pub use ui::{Menu, Rect, Sym};
