//! A LaTeX-to-MathML converter built on an owned syntax tree: its nodes and how
//! they are written, attributes, operators, display modes, rewriting of nodes,
//! and the conversion of the formulas in a document.
pub mod ast;
pub mod attribute;
pub mod display;
pub mod document;
pub mod ops;
pub mod rewrite;
