//! The MathML writer of the converter: the nodes of a formula and their
//! attributes, string buffers, table columns and operator markup.
pub mod arena;
pub mod ast;
pub mod attribute;
pub mod compact;
pub mod emit;
pub mod node;
pub mod table;
