//! Pieces of the LaTeX parser: character classes, environments, and parsing modes.
pub mod character_class;
pub mod environments;
pub mod parse;
