//! Building blocks for writing MathML: number formatting, colours, operator
//! characters, table columns and length units.
pub mod attribute;
pub mod color;
pub mod fmt;
pub mod itoa;
pub mod length;
pub mod ops;
pub mod symbol;
pub mod table;
