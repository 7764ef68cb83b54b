//! Puzzle definitions, layout and overlap validation for a tile-matching game.
//!
//! A puzzle is declared as shapes made of grid tiles (explicit lists, rectangle
//! shorthand, or ASCII art), laid out into columns, and judged by whether every
//! foreground tile covers a background tile and every background tile is covered.

pub mod geometry;
pub mod puzzles;
pub mod ascii_art;
pub mod tile;
pub mod shape;
pub mod colors;
pub mod puzzle;
pub mod theorems;
pub mod catalog;
