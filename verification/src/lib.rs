//! Core of a terminal grid editor: chorded key bindings, a scrolling
//! viewport over a large grid, and a reversible edit history.
//!
//! Nothing in this crate reads a key, paints a cell or touches a file. The
//! host feeds [`program::Program`] one [`input::Input`] at a time, does
//! what it is asked to do with the file, and paints what
//! [`program::Program::arrange`] says is shown.
pub mod bindings;
pub mod geometry;
pub mod grid;
pub mod history;
pub mod input;
pub mod keymap;
pub mod logger;
pub mod program;
pub mod text;
pub mod views;

pub use geometry::{Rect, XY};
pub use grid::Grid;
pub use program::Program;
