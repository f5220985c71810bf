//! The nodes of a formula, as the parser builds them in the arena.
use vstd::prelude::*;

use super::attribute::{
    FracAttr, HtmlTextStyle, LetterAttr, MathSpacing, Notation, OpAttr, RowAttr, Size, Style,
};
use super::table::{Alignment, ArraySpec};
use crate::mathml_renderer::attribute::StretchMode;
use crate::mathml_renderer::length::LengthUnit;
use crate::mathml_renderer::symbol::{MathMLOperator, StretchableOp};

verus! {

/// A node of a formula. Lengths are held as the text that MathML takes (such
/// as `0.2778em`), and equation numbers as `u16` values that are never zero.
#[derive(Debug)]
pub enum Node<'arena> {
    /// `<mn>...</mn>`
    Number(&'arena str),
    /// `<mi>...</mi>` for a single character.
    IdentifierChar(char, LetterAttr),
    StretchableOp(StretchableOp, StretchMode),
    /// `<mo>...</mo>` for a single character.
    Operator {
        op: MathMLOperator,
        attr: Option<OpAttr>,
        left: Option<MathSpacing>,
        right: Option<MathSpacing>,
    },
    /// `<mo>...</mo>` for a string.
    PseudoOp {
        attr: Option<OpAttr>,
        left: Option<MathSpacing>,
        right: Option<MathSpacing>,
        name: &'arena str,
    },
    /// `<mi>...</mi>` for a string.
    IdentifierStr(bool, &'arena str),
    /// `<mspace width="..."/>`, with the width as written and its unit.
    Space(&'arena str, LengthUnit),
    /// `<msub>...</msub>`
    Subscript { target: &'arena Node<'arena>, symbol: &'arena Node<'arena> },
    /// `<msup>...</msup>`
    Superscript { target: &'arena Node<'arena>, symbol: &'arena Node<'arena> },
    /// `<msubsup>...</msubsup>`
    SubSup { target: &'arena Node<'arena>, sub: &'arena Node<'arena>, sup: &'arena Node<'arena> },
    /// `<mover accent="true">...</mover>`
    OverOp(MathMLOperator, Option<OpAttr>, &'arena Node<'arena>),
    /// `<munder accent="true">...</munder>`
    UnderOp(MathMLOperator, &'arena Node<'arena>),
    /// `<mover>...</mover>`
    Overset { symbol: &'arena Node<'arena>, target: &'arena Node<'arena> },
    /// `<munder>...</munder>`
    Underset { symbol: &'arena Node<'arena>, target: &'arena Node<'arena> },
    /// `<munderover>...</munderover>`
    UnderOver { target: &'arena Node<'arena>, under: &'arena Node<'arena>, over: &'arena Node<'arena> },
    /// `<msqrt>...</msqrt>`
    Sqrt(&'arena Node<'arena>),
    /// `<mroot>...</mroot>`
    Root(&'arena Node<'arena>, &'arena Node<'arena>),
    /// `<mfrac>...</mfrac>`, with the line thickness as written, if it is given.
    Frac {
        num: &'arena Node<'arena>,
        denom: &'arena Node<'arena>,
        line_thickness: Option<&'arena str>,
        attr: Option<FracAttr>,
    },
    /// `<mrow>...</mrow>`
    Row { nodes: &'arena [&'arena Node<'arena>], attr: RowAttr },
    Fenced {
        style: Option<Style>,
        open: Option<StretchableOp>,
        close: Option<StretchableOp>,
        content: &'arena Node<'arena>,
    },
    SizedParen(Size, StretchableOp),
    /// `<mtext>...</mtext>`
    Text(Option<HtmlTextStyle>, &'arena str),
    /// `<mtable>...</mtable>` with predefined alignment
    Table { content: &'arena [&'arena Node<'arena>], align: Alignment, style: Option<Style> },
    /// `<mtable>...</mtable>` with predefined alignment and equation numbers
    EquationArray {
        content: &'arena [&'arena Node<'arena>],
        align: Alignment,
        last_equation_num: Option<u16>,
    },
    /// A multi-line equation of `num_rows` rows, numbered on its last row.
    MultLine {
        content: &'arena [&'arena Node<'arena>],
        num_rows: u16,
        last_equation_num: Option<u16>,
    },
    /// `<mtable>...</mtable>` with custom alignment
    Array {
        style: Option<Style>,
        content: &'arena [&'arena Node<'arena>],
        array_spec: &'arena ArraySpec<'arena>,
    },
    /// `<mtd>...</mtd>`
    ColumnSeparator,
    /// `<mtr>...</mtr>`
    RowSeparator(Option<u16>),
    /// `<menclose>...</menclose>`
    Enclose { content: &'arena Node<'arena>, notation: Notation },
    Slashed(&'arena Node<'arena>),
    Multiscript {
        base: &'arena Node<'arena>,
        sub: Option<&'arena Node<'arena>>,
        sup: Option<&'arena Node<'arena>>,
    },
    HardcodedMathML(&'static str),
    /// A node that is emitted as nothing.
    Dummy,
}

/// An equation number (or a count of rows) is never zero.
pub open spec fn valid_number(num: Option<u16>) -> bool {
    num matches Some(k) ==> k > 0
}

} // verus!
