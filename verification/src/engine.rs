//! Rules of the glyph display: how font records become glyphs, how printed
//! text is cut into words, where on a grid things go, and what the rows of
//! the grid, tileset and dictionary tables stand for.

pub mod dictionary;
pub mod glyphs;
pub mod grid;
pub mod numbers;
pub mod tables;
pub mod text;
pub mod words;
