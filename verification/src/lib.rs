//! The rules of a glyph-grid game, verified.
//!
//! `gameplay` holds the hit-dice health engine: bounded value pools,
//! status-carrying hit dice, and the ordered health bar that routes actions
//! across them and reports what happened, with the laws that hold of it.
//! `engine` holds the rules of the display: text, glyphs, grids and tables.
//! Nothing here reads a file, opens a window or draws a number; callers do
//! that and hand in plain values.

pub mod engine;
pub mod gameplay;
