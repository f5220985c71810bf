//! Writing the nodes of a formula as MathML.
//!
//! The text is described by `node_mathml`, a function of the node, the
//! indentation and a depth budget (`fuel`): a node is written in full when its
//! nesting depth is below the budget, which `emittable` states.
use vstd::prelude::*;

use super::ast::{emit_stretchy_op, equation_num_cell, stretchy_mo_open, write_equation_num};
use super::attribute::{FracAttr, LetterAttr, MathSpacing, Notation, OpAttr, RowAttr, Style};
use super::node::{valid_number, Node};
use super::table::{
    column_count, lemma_next_mtd_index_bound, next_mtd, AlignmentType, ColumnGenerator, LineType,
};
use crate::mathml_renderer::attribute::StretchMode;
use crate::mathml_renderer::fmt::{line_and_indent, new_line_and_indent};
use crate::mathml_renderer::itoa::{append_u8_as_hex, hex_chars, hex_digit_value, lemma_hex_roundtrip};
use crate::text::{begins_in_order, begins_in_order3, lemma_begins_in_order, lemma_begins_in_order3};
use crate::mathml_renderer::length::LengthUnit;
use crate::mathml_renderer::symbol::{StretchableOp, Stretchy};

verus! {

/// The indentation of the children of a node indented by `b`: one level more,
/// except that a node without indentation has children without indentation.
pub open spec fn child(b: nat) -> nat {
    if b == 0 {
        0
    } else if b >= usize::MAX {
        b
    } else {
        b + 1
    }
}

fn child_indent(b: usize) -> (c: usize)
    ensures
        c == child(b as nat),
{
    if b == 0 {
        0
    } else {
        b.saturating_add(1)
    }
}

/// The opening `<mo` of an operator with its attribute and spacing.
pub open spec fn mo_open(attr: Option<OpAttr>, left: Option<MathSpacing>, right: Option<MathSpacing>) -> Seq<char> {
    "<mo"@ + match attr {
        Some(a) => a.text(),
        None => Seq::empty(),
    } + match left {
        Some(l) => " lspace=\""@ + l.text() + "\""@,
        None => Seq::empty(),
    } + match right {
        Some(r) => " rspace=\""@ + r.text() + "\""@,
        None => Seq::empty(),
    }
}

/// The attributes that an optional style adds to a tag.
pub open spec fn style_text(style: Option<Style>) -> Seq<char> {
    match style {
        Some(st) => st.text(),
        None => Seq::empty(),
    }
}

/// A stretchy operator in `mode`, or an empty `<mo></mo>`.
pub open spec fn stretchy_op_mathml(mode: StretchMode, op: Option<StretchableOp>) -> Seq<char> {
    match op {
        Some(o) => stretchy_mo_open(mode, o.stretchiness()) + seq![o.character()] + "</mo>"@,
        None => "<mo></mo>"@,
    }
}

/// The opening tag of a row.
pub open spec fn row_open(attr: RowAttr) -> Seq<char> {
    match attr {
        RowAttr::NoAttr => "<mrow>"@,
        RowAttr::Style(st) => "<mrow"@ + st.text() + ">"@,
        RowAttr::Color(r, g, b) => "<mrow style=\"color:#"@ + hex_chars(r) + hex_chars(g) + hex_chars(b)
            + ";\">"@,
    }
}

/// The names of the strikes of an enclosure, as the `notation` attribute
/// lists them.
pub open spec fn notation_names(n: Notation) -> Seq<char> {
    (if n.up {
        "updiagonalstrike"@
    } else {
        Seq::empty()
    }) + (if n.down {
        (if n.up {
            " "@
        } else {
            Seq::empty()
        }) + "downdiagonalstrike"@
    } else {
        Seq::empty()
    }) + (if n.horizontal {
        (if n.up {
            " "@
        } else {
            Seq::empty()
        }) + "horizontalstrike"@
    } else {
        Seq::empty()
    })
}

/// The rows that draw the strikes of an enclosure, each on a line indented by `c`.
pub open spec fn strike_rows(n: Notation, c: nat) -> Seq<char> {
    (if n.up {
        line_and_indent(c) + "<mrow class=\"menclose-updiagonalstrike\"></mrow>"@
    } else {
        Seq::empty()
    }) + (if n.down {
        line_and_indent(c) + "<mrow class=\"menclose-downdiagonalstrike\"></mrow>"@
    } else {
        Seq::empty()
    }) + (if n.horizontal {
        line_and_indent(c) + "<mrow class=\"menclose-horizontalstrike\"></mrow>"@
    } else {
        Seq::empty()
    })
}

/// The style of the left border of an array.
pub open spec fn beginning_line_text(line: Option<LineType>) -> Seq<char> {
    match line {
        Some(LineType::Solid) => " style=\"border-left: 0.05em solid currentcolor\""@,
        Some(LineType::Dashed) => " style=\"border-left: 0.05em dashed currentcolor\""@,
        None => Seq::empty(),
    }
}

/// The empty cell at the start of each row of an equation array, which keeps
/// the equations centred.
pub open spec fn dummy_cell(is_equation_array: bool, c2: nat) -> Seq<char> {
    if is_equation_array {
        line_and_indent(c2) + "<mtd style=\"width: 50%\"></mtd>"@
    } else {
        Seq::empty()
    }
}

/// The text of a node without children, after its line break.
pub open spec fn leaf_mathml<'a>(n: Node<'a>) -> Seq<char> {
    match n {
        Node::Number(t) => "<mn>"@ + t@ + "</mn>"@,
        Node::IdentifierChar(x, attr) => if attr == LetterAttr::ForcedUpright {
            "<mpadded><mi mathvariant=\"normal\">"@ + seq![x] + "</mi></mpadded>"@
        } else {
            "<mi>"@ + seq![x] + "</mi>"@
        },
        Node::StretchableOp(op, mode) => if (op.stretchiness() == Stretchy::Never
            || op.stretchiness() == Stretchy::PrePostfix) && mode == StretchMode::NoStretch {
            "<mi>"@ + seq![op.character()] + "</mi>"@
        } else {
            stretchy_op_mathml(mode, Some(op))
        },
        Node::Operator { op, attr, left, right } => mo_open(attr, left, right) + ">"@ + seq![op@]
            + "</mo>"@,
        Node::PseudoOp { attr, left, right, name } => mo_open(attr, left, right) + ">"@ + name@
            + "</mo>"@,
        Node::IdentifierStr(with_tf, t) => if with_tf {
            "<mi>"@ + t@ + "</mi>"@
        } else {
            "<mpadded><mi>"@ + t@ + "</mi></mpadded>"@
        },
        Node::Text(style, t) => match style {
            Some(st) => st.open_text() + t@ + st.close_text(),
            None => "<mtext>"@ + t@ + "</mtext>"@,
        },
        Node::Space(width, unit) => "<mspace width=\""@ + width@ + (if unit == LengthUnit::Rem {
            "\" style=\"width:"@ + width@
        } else {
            Seq::empty()
        }) + "\"/>"@,
        Node::SizedParen(size, op) => "<mo maxsize=\""@ + size.text() + "\" minsize=\""@ + size.text()
            + "\""@ + match op.stretchiness() {
            Stretchy::PrePostfix | Stretchy::Never => " stretchy=\"true\" symmetric=\"true\""@,
            Stretchy::AlwaysAsymmetric => " symmetric=\"true\""@,
            Stretchy::Always => Seq::empty(),
        } + ">"@ + seq![op.character()] + "</mo>"@,
        Node::HardcodedMathML(t) => t@,
        _ => Seq::empty(),
    }
}

/// Whether the node has no children.
pub open spec fn is_leaf<'a>(n: Node<'a>) -> bool {
    n is Number || n is IdentifierChar || n is StretchableOp || n is Operator || n is PseudoOp
        || n is IdentifierStr || n is Text || n is Space || n is SizedParen || n is HardcodedMathML
        || n is Dummy || n is RowSeparator
}

/// The MathML text of node `n` indented by `b`, for nodes nested less than
/// `fuel` deep.
#[verifier::opaque]
pub open spec fn node_mathml<'a>(n: Node<'a>, b: nat, fuel: nat) -> Seq<char>
    decreases fuel, 0nat, 0nat,
{
    if fuel == 0 {
        Seq::empty()
    } else {
        let f = (fuel - 1) as nat;
        let c = child(b);
        (if n is Dummy || n is RowSeparator {
            Seq::empty()
        } else {
            line_and_indent(b)
        }) + match n {
            Node::Subscript { target, symbol } => "<msub>"@ + node_mathml(*target, c, f)
                + node_mathml(*symbol, c, f) + line_and_indent(b) + "</msub>"@,
            Node::Superscript { target, symbol } => "<msup>"@ + node_mathml(*target, c, f)
                + node_mathml(*symbol, c, f) + line_and_indent(b) + "</msup>"@,
            Node::Overset { symbol, target } => "<mover>"@ + node_mathml(*target, c, f)
                + node_mathml(*symbol, c, f) + line_and_indent(b) + "</mover>"@,
            Node::Underset { symbol, target } => "<munder>"@ + node_mathml(*target, c, f)
                + node_mathml(*symbol, c, f) + line_and_indent(b) + "</munder>"@,
            Node::Root(second, first) => "<mroot>"@ + node_mathml(*first, c, f) + node_mathml(
                *second,
                c,
                f,
            ) + line_and_indent(b) + "</mroot>"@,
            Node::SubSup { target, sub, sup } => "<msubsup>"@ + node_mathml(*target, c, f)
                + node_mathml(*sub, c, f) + node_mathml(*sup, c, f) + line_and_indent(b)
                + "</msubsup>"@,
            Node::UnderOver { target, under, over } => "<munderover>"@ + node_mathml(*target, c, f)
                + node_mathml(*under, c, f) + node_mathml(*over, c, f) + line_and_indent(b)
                + "</munderover>"@,
            Node::Multiscript { base, sub, sup } => "<mmultiscripts>"@ + node_mathml(*base, c, f)
                + line_and_indent(c) + "<mprescripts/>"@ + match sub {
                Some(x) => node_mathml(*x, c, f),
                None => line_and_indent(c) + "<mrow></mrow>"@,
            } + match sup {
                Some(x) => node_mathml(*x, c, f),
                None => line_and_indent(c) + "<mrow></mrow>"@,
            } + line_and_indent(b) + "</mmultiscripts>"@,
            Node::OverOp(op, attr, target) => "<mover accent=\"true\">"@ + node_mathml(*target, c, f)
                + line_and_indent(c) + "<mo"@ + match attr {
                Some(a) => a.text(),
                None => Seq::empty(),
            } + ">"@ + seq![op@] + "</mo>"@ + line_and_indent(b) + "</mover>"@,
            Node::UnderOp(op, target) => "<munder accentunder=\"true\">"@ + node_mathml(*target, c, f)
                + line_and_indent(c) + "<mo>"@ + seq![op@] + "</mo>"@ + line_and_indent(b)
                + "</munder>"@,
            Node::Sqrt(content) => "<msqrt>"@ + node_mathml(*content, c, f) + line_and_indent(b)
                + "</msqrt>"@,
            Node::Frac { num, denom, line_thickness, attr } => "<mfrac"@ + match line_thickness {
                Some(t) => " linethickness=\""@ + t@ + "\""@,
                None => Seq::empty(),
            } + match attr {
                Some(a) => a.text(),
                None => Seq::empty(),
            } + ">"@ + node_mathml(*num, c, f) + node_mathml(*denom, c, f) + line_and_indent(b)
                + "</mfrac>"@,
            Node::Row { nodes, attr } => row_open(attr) + row_mathml(nodes@, nodes@.len(), c, f)
                + line_and_indent(b) + "</mrow>"@,
            Node::Fenced { style, open, close, content } => (match style {
                Some(st) => "<mrow"@ + st.text() + ">"@,
                None => "<mrow>"@,
            }) + line_and_indent(c) + stretchy_op_mathml(StretchMode::Fence, open) + node_mathml(
                *content,
                c,
                f,
            ) + line_and_indent(c) + stretchy_op_mathml(StretchMode::Fence, close) + line_and_indent(
                b,
            ) + "</mrow>"@,
            Node::Slashed(inner) => match *inner {
                Node::IdentifierChar(x, attr) => (if attr == LetterAttr::ForcedUpright {
                    "<mi mathvariant=\"normal\">"@
                } else {
                    "<mi>"@
                }) + seq![x] + "&#x0338;</mi>"@,
                Node::Operator { op, .. } => "<mo>"@ + seq![op@] + "&#x0338;</mo>"@,
                other => node_mathml(other, b, f),
            },
            Node::Table { content, align, style } => "<mtable"@ + style_text(style) + ">"@
                + table_mathml(content@, AlignmentType::Predefined(align), false, None, b, f),
            Node::EquationArray { content, align, last_equation_num } =>
                "<mtable displaystyle=\"true\" scriptlevel=\"0\" style=\"width: 100%\">"@
                + table_mathml(
                content@,
                AlignmentType::Predefined(align),
                true,
                last_equation_num,
                b,
                f,
            ),
            Node::Array { style, content, array_spec } => "<mtable"@ + beginning_line_text(
                array_spec.beginning_line,
            ) + style_text(style) + ">"@ + table_mathml(
                content@,
                AlignmentType::Custom(array_spec),
                false,
                None,
                b,
                f,
            ),
            Node::Enclose { content, notation } => "<menclose notation=\""@ + notation_names(notation)
                + "\">"@ + node_mathml(*content, c, f) + strike_rows(notation, c) + line_and_indent(b)
                + "</menclose>"@,
            _ => leaf_mathml(n),
        }
    }
}

/// The text of the first `k` nodes of a row, each indented by `c`.
#[verifier::opaque]
pub open spec fn row_mathml<'a>(ns: Seq<&'a Node<'a>>, k: nat, c: nat, fuel: nat) -> Seq<char>
    decreases fuel, 1nat, k,
{
    if k == 0 || k > ns.len() {
        Seq::empty()
    } else {
        row_mathml(ns, (k - 1) as nat, c, fuel) + node_mathml(*ns[k - 1], c, fuel)
    }
}

/// Closing a cell and opening the next, from column `idx`.
pub open spec fn cell_break_text<'a>(kind: AlignmentType<'a>, idx: nat, c2: nat) -> Seq<char> {
    line_and_indent(c2) + "</mtd>"@ + line_and_indent(c2) + next_mtd(kind, idx, c2).0
}

/// Closing a cell and its row (with the row's equation number in an equation
/// array) and opening a new row and its first cell.
pub open spec fn row_break_text<'a>(
    kind: AlignmentType<'a>,
    is_equation_array: bool,
    num: Option<u16>,
    c: nat,
) -> Seq<char> {
    let c2 = child(c);
    let c3 = child(c2);
    line_and_indent(c2) + "</mtd>"@ + (if is_equation_array {
        equation_num_cell(c2, c3, num)
    } else {
        Seq::empty()
    }) + line_and_indent(c) + "</mtr>"@ + line_and_indent(c) + "<mtr>"@ + dummy_cell(
        is_equation_array,
        c2,
    ) + line_and_indent(c2) + next_mtd(kind, 0, c2).0
}

/// The start of a table's first row, up to the opening tag of its first cell.
pub open spec fn table_head_text<'a>(kind: AlignmentType<'a>, is_equation_array: bool, c: nat) -> Seq<char> {
    let c2 = child(c);
    line_and_indent(c) + "<mtr>"@ + dummy_cell(is_equation_array, c2) + line_and_indent(c2) + next_mtd(
        kind,
        0,
        c2,
    ).0
}

/// The end of a table's last row (with its equation number in an equation
/// array) and the closing tag of the table.
pub open spec fn table_tail_text(is_equation_array: bool, last_equation_num: Option<u16>, b: nat) -> Seq<char> {
    let c = child(b);
    let c2 = child(c);
    let c3 = child(c2);
    line_and_indent(c2) + "</mtd>"@ + (if is_equation_array {
        equation_num_cell(c2, c3, last_equation_num)
    } else {
        Seq::empty()
    }) + line_and_indent(c) + "</mtr>"@ + line_and_indent(b) + "</mtable>"@
}

/// The text of a table's first `k` entries, after the opening tag of its first
/// cell, and the column index after them. A column separator closes the cell
/// and opens the next one; a row separator closes the cell (with the equation
/// number of the row in an equation array) and the row, and opens a new row.
#[verifier::opaque]
pub open spec fn entries_mathml<'a>(
    ns: Seq<&'a Node<'a>>,
    k: nat,
    kind: AlignmentType<'a>,
    is_equation_array: bool,
    c: nat,
    fuel: nat,
) -> (Seq<char>, nat)
    decreases fuel, 1nat, k,
{
    let c2 = child(c);
    if k == 0 || k > ns.len() {
        (Seq::empty(), next_mtd(kind, 0, c2).1)
    } else {
        let prev = entries_mathml(ns, (k - 1) as nat, kind, is_equation_array, c, fuel);
        match *ns[k - 1] {
            Node::ColumnSeparator => (prev.0 + cell_break_text(kind, prev.1, c2), next_mtd(kind, prev.1, c2).1),
            Node::RowSeparator(num) => (prev.0 + row_break_text(kind, is_equation_array, num, c), next_mtd(kind, 0, c2).1),
            e => (prev.0 + node_mathml(e, child(c2), fuel), prev.1),
        }
    }
}

/// The text of a table's rows and its closing tag, for a table indented by `b`.
#[verifier::opaque]
pub open spec fn table_mathml<'a>(
    ns: Seq<&'a Node<'a>>,
    kind: AlignmentType<'a>,
    is_equation_array: bool,
    last_equation_num: Option<u16>,
    b: nat,
    fuel: nat,
) -> Seq<char>
    decreases fuel, 2nat, 0nat,
{
    let c = child(b);
    table_head_text(kind, is_equation_array, c) + entries_mathml(ns, ns.len(), kind, is_equation_array, c, fuel).0
        + table_tail_text(is_equation_array, last_equation_num, b)
}

/// Whether an entry of a table can be written: a separator, or a node that
/// can be written within `fuel`.
#[verifier::opaque]
pub open spec fn entry_ok<'a>(e: Node<'a>, fuel: nat) -> bool
    decreases fuel, 1nat,
{
    match e {
        Node::ColumnSeparator => true,
        Node::RowSeparator(num) => valid_number(num),
        _ => emittable(e, fuel),
    }
}

/// Whether `n` can be written within a depth budget of `fuel`: it is nested
/// less than `fuel` deep, its operators hold Unicode scalar values, its
/// equation numbers are not zero, column separators stand only in tables,
/// and the column index of a table stays within the machine's range.
#[verifier::opaque]
pub open spec fn emittable<'a>(n: Node<'a>, fuel: nat) -> bool
    decreases fuel, 0nat,
{
    if fuel == 0 {
        false
    } else {
        let f = (fuel - 1) as nat;
        match n {
            Node::StretchableOp(op, _) => op.wf(),
            Node::SizedParen(_, op) => op.wf(),
            Node::RowSeparator(num) => valid_number(num),
            Node::ColumnSeparator => false,
            Node::MultLine { .. } => false,
            Node::Subscript { target, symbol } => emittable(*target, f) && emittable(*symbol, f),
            Node::Superscript { target, symbol } => emittable(*target, f) && emittable(*symbol, f),
            Node::Overset { symbol, target } => emittable(*target, f) && emittable(*symbol, f),
            Node::Underset { symbol, target } => emittable(*target, f) && emittable(*symbol, f),
            Node::Root(second, first) => emittable(*first, f) && emittable(*second, f),
            Node::SubSup { target, sub, sup } => emittable(*target, f) && emittable(*sub, f)
                && emittable(*sup, f),
            Node::UnderOver { target, under, over } => emittable(*target, f) && emittable(*under, f)
                && emittable(*over, f),
            Node::Multiscript { base, sub, sup } => emittable(*base, f) && (sub matches Some(x)
                ==> emittable(*x, f)) && (sup matches Some(x) ==> emittable(*x, f)),
            Node::OverOp(_, _, target) => emittable(*target, f),
            Node::UnderOp(_, target) => emittable(*target, f),
            Node::Sqrt(content) => emittable(*content, f),
            Node::Frac { num, denom, .. } => emittable(*num, f) && emittable(*denom, f),
            Node::Row { nodes, .. } => forall|i: int|
                0 <= i < nodes@.len() ==> emittable(*#[trigger] nodes@[i], f),
            Node::Fenced { open, close, content, .. } => (open matches Some(o) ==> o.wf()) && (
            close matches Some(o) ==> o.wf()) && emittable(*content, f),
            Node::Slashed(inner) => emittable(*inner, f),
            Node::Table { content, .. } => content@.len() + 3 <= usize::MAX && forall|i: int|
                0 <= i < content@.len() ==> entry_ok(*#[trigger] content@[i], f),
            Node::EquationArray { content, last_equation_num, .. } => content@.len() + 3
                <= usize::MAX && valid_number(last_equation_num) && forall|i: int|
                0 <= i < content@.len() ==> entry_ok(*#[trigger] content@[i], f),
            Node::Array { content, array_spec, .. } => content@.len()
                + array_spec.column_spec@.len() + 3 <= usize::MAX && forall|i: int|
                0 <= i < content@.len() ==> entry_ok(*#[trigger] content@[i], f),
            Node::Enclose { content, .. } => emittable(*content, f),
            _ => true,
        }
    }
}

/// The depth budget of `Node::emit`: more levels of nesting than a machine
/// can hold.
pub open spec fn max_depth() -> nat {
    usize::MAX as nat
}

/// A row of no nodes is empty.
proof fn lemma_row_start<'a>(ns: Seq<&'a Node<'a>>, c: nat, fuel: nat)
    ensures
        row_mathml(ns, 0, c, fuel) == Seq::<char>::empty(),
{
    reveal(node_mathml);
    reveal(row_mathml);
    reveal(entries_mathml);
    reveal(table_mathml);
}

/// One more node of a row adds its text.
proof fn lemma_row_step<'a>(ns: Seq<&'a Node<'a>>, k: nat, c: nat, fuel: nat)
    requires
        k < ns.len(),
    ensures
        row_mathml(ns, k + 1, c, fuel) == row_mathml(ns, k, c, fuel) + node_mathml(*ns[k as int], c, fuel),
{
    reveal(node_mathml);
    reveal(row_mathml);
    reveal(entries_mathml);
    reveal(table_mathml);
}

/// Before the first entry, nothing is written and the first column is open.
proof fn lemma_entries_start<'a>(
    ns: Seq<&'a Node<'a>>,
    kind: AlignmentType<'a>,
    is_equation_array: bool,
    c: nat,
    fuel: nat,
)
    ensures
        entries_mathml(ns, 0, kind, is_equation_array, c, fuel) == (Seq::<char>::empty(), next_mtd(kind, 0, child(c)).1),
{
    reveal(node_mathml);
    reveal(row_mathml);
    reveal(entries_mathml);
    reveal(table_mathml);
}

/// What one more entry of a table adds.
proof fn lemma_entries_step<'a>(
    ns: Seq<&'a Node<'a>>,
    k: nat,
    kind: AlignmentType<'a>,
    is_equation_array: bool,
    c: nat,
    fuel: nat,
)
    requires
        k < ns.len(),
    ensures
        ({
            let prev = entries_mathml(ns, k, kind, is_equation_array, c, fuel);
            let next = entries_mathml(ns, k + 1, kind, is_equation_array, c, fuel);
            match *ns[k as int] {
                Node::ColumnSeparator => next == (prev.0 + cell_break_text(kind, prev.1, child(c)), next_mtd(kind, prev.1, child(c)).1),
                Node::RowSeparator(num) => next == (prev.0 + row_break_text(kind, is_equation_array, num, c), next_mtd(kind, 0, child(c)).1),
                e => next == (prev.0 + node_mathml(e, child(child(c)), fuel), prev.1),
            }
        }),
{
    reveal(node_mathml);
    reveal(row_mathml);
    reveal(entries_mathml);
    reveal(table_mathml);
}

/// A table is its first row's start, its entries and its end.
proof fn lemma_table_parts<'a>(
    ns: Seq<&'a Node<'a>>,
    kind: AlignmentType<'a>,
    is_equation_array: bool,
    last_equation_num: Option<u16>,
    b: nat,
    fuel: nat,
)
    ensures
        table_mathml(ns, kind, is_equation_array, last_equation_num, b, fuel) == table_head_text(kind, is_equation_array, child(b))
            + entries_mathml(ns, ns.len(), kind, is_equation_array, child(b), fuel).0
            + table_tail_text(is_equation_array, last_equation_num, b),
{
    reveal(node_mathml);
    reveal(row_mathml);
    reveal(entries_mathml);
    reveal(table_mathml);
}

/// An entry of a table that is no separator can be written.
proof fn lemma_entry_emittable<'a>(e: Node<'a>, fuel: nat)
    requires
        entry_ok(e, fuel),
        !(e is ColumnSeparator),
        !(e is RowSeparator),
    ensures
        emittable(e, fuel),
{
    reveal(emittable);
    reveal(entry_ok);
}

/// A coloured row writes its colour as `#` and the two hexadecimal digits of
/// the red, the green and the blue component, in that order (`\color{red}`
/// gives `#FF0000`).
pub proof fn lemma_row_colour<'a>(nodes: &'a [&'a Node<'a>], r: u8, g: u8, bl: u8, b: nat, fuel: nat)
    requires
        fuel > 0,
    ensures
        ({
            let t = node_mathml(Node::Row { nodes, attr: RowAttr::Color(r, g, bl) }, b, fuel);
            let p = (line_and_indent(b).len() + "<mrow style=\"color:#"@.len()) as int;
            &&& p + 7 <= t.len()
            &&& t.subrange(0, p) == line_and_indent(b) + "<mrow style=\"color:#"@
            &&& 16 * hex_digit_value(t[p]) + hex_digit_value(t[p + 1]) == r
            &&& 16 * hex_digit_value(t[p + 2]) + hex_digit_value(t[p + 3]) == g
            &&& 16 * hex_digit_value(t[p + 4]) + hex_digit_value(t[p + 5]) == bl
            &&& t[p + 6] == ';'
        }),
{
    reveal(node_mathml);
    reveal(row_mathml);
    reveal(entries_mathml);
    reveal(table_mathml);
    reveal_strlit(";\">");
    lemma_hex_roundtrip(r);
    lemma_hex_roundtrip(g);
    lemma_hex_roundtrip(bl);
    let n = Node::Row { nodes, attr: RowAttr::Color(r, g, bl) };
    let t = node_mathml(n, b, fuel);
    let head = line_and_indent(b) + "<mrow style=\"color:#"@;
    let rest = ";\">"@ + row_mathml(nodes@, nodes@.len(), child(b), (fuel - 1) as nat) + line_and_indent(b)
        + "</mrow>"@;
    assert(t =~= head + hex_chars(r) + hex_chars(g) + hex_chars(bl) + rest);
    let p = head.len() as int;
    assert(t.subrange(0, p) =~= head);
    assert(t[p] == hex_chars(r)[0]);
    assert(t[p + 1] == hex_chars(r)[1]);
    assert(t[p + 2] == hex_chars(g)[0]);
    assert(t[p + 3] == hex_chars(g)[1]);
    assert(t[p + 4] == hex_chars(bl)[0]);
    assert(t[p + 5] == hex_chars(bl)[1]);
    assert(t[p + 6] == rest[0]);
}

#[verifier::rlimit(40)]
proof fn lemma_subscript_order<'a>(n: Node<'a>, b: nat, fuel: nat)
    requires
        fuel > 0,
        n is Subscript,
    ensures
        ({
            let t = node_mathml(n, b, fuel);
            let c = child(b);
            let f = (fuel - 1) as nat;
            let l = line_and_indent(b);
            n matches Node::Subscript { target, symbol } ==> begins_in_order(
                t,
                l + "<msub>"@,
                node_mathml(*target, c, f),
                node_mathml(*symbol, c, f),
            )
        }),
{
    reveal(node_mathml);
    reveal(row_mathml);
    reveal(entries_mathml);
    reveal(table_mathml);
    let c = child(b);
    let f = (fuel - 1) as nat;
    let l = line_and_indent(b);
    let t = node_mathml(n, b, fuel);
    match n {
        Node::Subscript { target, symbol } => {
            lemma_begins_in_order(l + "<msub>"@, node_mathml(*target, c, f), node_mathml(*symbol, c, f), l + "</msub>"@);
            assert(t =~= l + "<msub>"@ + node_mathml(*target, c, f) + node_mathml(*symbol, c, f) + (l + "</msub>"@));
        },
        _ => {},
    }
}

#[verifier::rlimit(40)]
proof fn lemma_superscript_order<'a>(n: Node<'a>, b: nat, fuel: nat)
    requires
        fuel > 0,
        n is Superscript,
    ensures
        ({
            let t = node_mathml(n, b, fuel);
            let c = child(b);
            let f = (fuel - 1) as nat;
            let l = line_and_indent(b);
            n matches Node::Superscript { target, symbol } ==> begins_in_order(
                t,
                l + "<msup>"@,
                node_mathml(*target, c, f),
                node_mathml(*symbol, c, f),
            )
        }),
{
    reveal(node_mathml);
    reveal(row_mathml);
    reveal(entries_mathml);
    reveal(table_mathml);
    let c = child(b);
    let f = (fuel - 1) as nat;
    let l = line_and_indent(b);
    let t = node_mathml(n, b, fuel);
    match n {
        Node::Superscript { target, symbol } => {
            lemma_begins_in_order(l + "<msup>"@, node_mathml(*target, c, f), node_mathml(*symbol, c, f), l + "</msup>"@);
            assert(t =~= l + "<msup>"@ + node_mathml(*target, c, f) + node_mathml(*symbol, c, f) + (l + "</msup>"@));
        },
        _ => {},
    }
}

#[verifier::rlimit(40)]
proof fn lemma_sub_sup_order<'a>(n: Node<'a>, b: nat, fuel: nat)
    requires
        fuel > 0,
        n is SubSup,
    ensures
        ({
            let t = node_mathml(n, b, fuel);
            let c = child(b);
            let f = (fuel - 1) as nat;
            let l = line_and_indent(b);
            n matches Node::SubSup { target, sub, sup } ==> begins_in_order3(
                t,
                l + "<msubsup>"@,
                node_mathml(*target, c, f),
                node_mathml(*sub, c, f),
                node_mathml(*sup, c, f),
            )
        }),
{
    reveal(node_mathml);
    reveal(row_mathml);
    reveal(entries_mathml);
    reveal(table_mathml);
    let c = child(b);
    let f = (fuel - 1) as nat;
    let l = line_and_indent(b);
    let t = node_mathml(n, b, fuel);
    match n {
        Node::SubSup { target, sub, sup } => {
            lemma_begins_in_order3(l + "<msubsup>"@, node_mathml(*target, c, f), node_mathml(*sub, c, f), node_mathml(*sup, c, f), l + "</msubsup>"@);
            assert(t =~= l + "<msubsup>"@ + node_mathml(*target, c, f) + node_mathml(*sub, c, f) + node_mathml(*sup, c, f) + (l + "</msubsup>"@));
        },
        _ => {},
    }
}

#[verifier::rlimit(40)]
proof fn lemma_overset_order<'a>(n: Node<'a>, b: nat, fuel: nat)
    requires
        fuel > 0,
        n is Overset,
    ensures
        ({
            let t = node_mathml(n, b, fuel);
            let c = child(b);
            let f = (fuel - 1) as nat;
            let l = line_and_indent(b);
            n matches Node::Overset { symbol, target } ==> begins_in_order(
                t,
                l + "<mover>"@,
                node_mathml(*target, c, f),
                node_mathml(*symbol, c, f),
            )
        }),
{
    reveal(node_mathml);
    reveal(row_mathml);
    reveal(entries_mathml);
    reveal(table_mathml);
    let c = child(b);
    let f = (fuel - 1) as nat;
    let l = line_and_indent(b);
    let t = node_mathml(n, b, fuel);
    match n {
        Node::Overset { symbol, target } => {
            lemma_begins_in_order(l + "<mover>"@, node_mathml(*target, c, f), node_mathml(*symbol, c, f), l + "</mover>"@);
            assert(t =~= l + "<mover>"@ + node_mathml(*target, c, f) + node_mathml(*symbol, c, f) + (l + "</mover>"@));
        },
        _ => {},
    }
}

#[verifier::rlimit(40)]
proof fn lemma_underset_order<'a>(n: Node<'a>, b: nat, fuel: nat)
    requires
        fuel > 0,
        n is Underset,
    ensures
        ({
            let t = node_mathml(n, b, fuel);
            let c = child(b);
            let f = (fuel - 1) as nat;
            let l = line_and_indent(b);
            n matches Node::Underset { symbol, target } ==> begins_in_order(
                t,
                l + "<munder>"@,
                node_mathml(*target, c, f),
                node_mathml(*symbol, c, f),
            )
        }),
{
    reveal(node_mathml);
    reveal(row_mathml);
    reveal(entries_mathml);
    reveal(table_mathml);
    let c = child(b);
    let f = (fuel - 1) as nat;
    let l = line_and_indent(b);
    let t = node_mathml(n, b, fuel);
    match n {
        Node::Underset { symbol, target } => {
            lemma_begins_in_order(l + "<munder>"@, node_mathml(*target, c, f), node_mathml(*symbol, c, f), l + "</munder>"@);
            assert(t =~= l + "<munder>"@ + node_mathml(*target, c, f) + node_mathml(*symbol, c, f) + (l + "</munder>"@));
        },
        _ => {},
    }
}

#[verifier::rlimit(40)]
proof fn lemma_under_over_order<'a>(n: Node<'a>, b: nat, fuel: nat)
    requires
        fuel > 0,
        n is UnderOver,
    ensures
        ({
            let t = node_mathml(n, b, fuel);
            let c = child(b);
            let f = (fuel - 1) as nat;
            let l = line_and_indent(b);
            n matches Node::UnderOver { target, under, over } ==> begins_in_order3(
                t,
                l + "<munderover>"@,
                node_mathml(*target, c, f),
                node_mathml(*under, c, f),
                node_mathml(*over, c, f),
            )
        }),
{
    reveal(node_mathml);
    reveal(row_mathml);
    reveal(entries_mathml);
    reveal(table_mathml);
    let c = child(b);
    let f = (fuel - 1) as nat;
    let l = line_and_indent(b);
    let t = node_mathml(n, b, fuel);
    match n {
        Node::UnderOver { target, under, over } => {
            lemma_begins_in_order3(l + "<munderover>"@, node_mathml(*target, c, f), node_mathml(*under, c, f), node_mathml(*over, c, f), l + "</munderover>"@);
            assert(t =~= l + "<munderover>"@ + node_mathml(*target, c, f) + node_mathml(*under, c, f) + node_mathml(*over, c, f) + (l + "</munderover>"@));
        },
        _ => {},
    }
}

#[verifier::rlimit(40)]
proof fn lemma_root_order<'a>(n: Node<'a>, b: nat, fuel: nat)
    requires
        fuel > 0,
        n is Root,
    ensures
        ({
            let t = node_mathml(n, b, fuel);
            let c = child(b);
            let f = (fuel - 1) as nat;
            let l = line_and_indent(b);
            n matches Node::Root(index, content) ==> begins_in_order(
                t,
                l + "<mroot>"@,
                node_mathml(*content, c, f),
                node_mathml(*index, c, f),
            )
        }),
{
    reveal(node_mathml);
    reveal(row_mathml);
    reveal(entries_mathml);
    reveal(table_mathml);
    let c = child(b);
    let f = (fuel - 1) as nat;
    let l = line_and_indent(b);
    let t = node_mathml(n, b, fuel);
    match n {
        Node::Root(index, content) => {
            lemma_begins_in_order(l + "<mroot>"@, node_mathml(*content, c, f), node_mathml(*index, c, f), l + "</mroot>"@);
            assert(t =~= l + "<mroot>"@ + node_mathml(*content, c, f) + node_mathml(*index, c, f) + (l + "</mroot>"@));
        },
        _ => {},
    }
}

#[verifier::rlimit(40)]
proof fn lemma_frac_order<'a>(n: Node<'a>, b: nat, fuel: nat)
    requires
        fuel > 0,
        n is Frac,
    ensures
        ({
            let t = node_mathml(n, b, fuel);
            let c = child(b);
            let f = (fuel - 1) as nat;
            let l = line_and_indent(b);
            n matches Node::Frac { num, denom, line_thickness, attr } ==> begins_in_order(
                t,
                l + "<mfrac"@ + match line_thickness {
                    Some(th) => " linethickness=\""@ + th@ + "\""@,
                    None => Seq::empty(),
                } + match attr {
                    Some(a) => a.text(),
                    None => Seq::empty(),
                } + ">"@,
                node_mathml(*num, c, f),
                node_mathml(*denom, c, f),
            )
        }),
{
    reveal(node_mathml);
    reveal(row_mathml);
    reveal(entries_mathml);
    reveal(table_mathml);
    let c = child(b);
    let f = (fuel - 1) as nat;
    let l = line_and_indent(b);
    let t = node_mathml(n, b, fuel);
    match n {
        Node::Frac { num, denom, line_thickness, attr } => {
            let head = l + "<mfrac"@ + match line_thickness {
                Some(th) => " linethickness=\""@ + th@ + "\""@,
                None => Seq::empty(),
            } + match attr {
                Some(a) => a.text(),
                None => Seq::empty(),
            } + ">"@;
            lemma_begins_in_order(head, node_mathml(*num, c, f), node_mathml(*denom, c, f), l + "</mfrac>"@);
            assert(t =~= head + node_mathml(*num, c, f) + node_mathml(*denom, c, f) + (l + "</mfrac>"@));
        },
        _ => {},
        _ => {},
    }
}

/// Every node with a base writes the base first and its scripts after it:
/// a subscript, superscript or both, a symbol over or under a base, limits
/// under and over a base, and a root, whose content comes before its index.
/// A fraction writes its numerator before its denominator.
pub proof fn lemma_base_before_scripts<'a>(n: Node<'a>, b: nat, fuel: nat)
    requires
        fuel > 0,
    ensures
        ({
            let t = node_mathml(n, b, fuel);
            let c = child(b);
            let f = (fuel - 1) as nat;
            let l = line_and_indent(b);
            &&& n matches Node::Subscript { target, symbol } ==> begins_in_order(
                t,
                l + "<msub>"@,
                node_mathml(*target, c, f),
                node_mathml(*symbol, c, f),
            )
            &&& n matches Node::Superscript { target, symbol } ==> begins_in_order(
                t,
                l + "<msup>"@,
                node_mathml(*target, c, f),
                node_mathml(*symbol, c, f),
            )
            &&& n matches Node::SubSup { target, sub, sup } ==> begins_in_order3(
                t,
                l + "<msubsup>"@,
                node_mathml(*target, c, f),
                node_mathml(*sub, c, f),
                node_mathml(*sup, c, f),
            )
            &&& n matches Node::Overset { symbol, target } ==> begins_in_order(
                t,
                l + "<mover>"@,
                node_mathml(*target, c, f),
                node_mathml(*symbol, c, f),
            )
            &&& n matches Node::Underset { symbol, target } ==> begins_in_order(
                t,
                l + "<munder>"@,
                node_mathml(*target, c, f),
                node_mathml(*symbol, c, f),
            )
            &&& n matches Node::UnderOver { target, under, over } ==> begins_in_order3(
                t,
                l + "<munderover>"@,
                node_mathml(*target, c, f),
                node_mathml(*under, c, f),
                node_mathml(*over, c, f),
            )
            &&& n matches Node::Root(index, content) ==> begins_in_order(
                t,
                l + "<mroot>"@,
                node_mathml(*content, c, f),
                node_mathml(*index, c, f),
            )
            &&& n matches Node::Frac { num, denom, line_thickness, attr } ==> begins_in_order(
                t,
                l + "<mfrac"@ + match line_thickness {
                    Some(th) => " linethickness=\""@ + th@ + "\""@,
                    None => Seq::empty(),
                } + match attr {
                    Some(a) => a.text(),
                    None => Seq::empty(),
                } + ">"@,
                node_mathml(*num, c, f),
                node_mathml(*denom, c, f),
            )
        }),
{
    match n {
        Node::Subscript { .. } => lemma_subscript_order(n, b, fuel),
        Node::Superscript { .. } => lemma_superscript_order(n, b, fuel),
        Node::SubSup { .. } => lemma_sub_sup_order(n, b, fuel),
        Node::Overset { .. } => lemma_overset_order(n, b, fuel),
        Node::Underset { .. } => lemma_underset_order(n, b, fuel),
        Node::UnderOver { .. } => lemma_under_over_order(n, b, fuel),
        Node::Root(..) => lemma_root_order(n, b, fuel),
        Node::Frac { .. } => lemma_frac_order(n, b, fuel),
        _ => {},
    }
}

/// A fenced node writes its opening delimiter, then its content, then its
/// closing delimiter, each after the opening tag of its row.
#[verifier::rlimit(40)]
pub proof fn lemma_fence_order<'a>(
    style: Option<Style>,
    open: Option<StretchableOp>,
    close: Option<StretchableOp>,
    content: &'a Node<'a>,
    b: nat,
    fuel: nat,
)
    requires
        fuel > 0,
    ensures
        ({
            let t = node_mathml(Node::Fenced { style, open, close, content }, b, fuel);
            let c = child(b);
            let head = line_and_indent(b) + match style {
                Some(st) => "<mrow"@ + st.text() + ">"@,
                None => "<mrow>"@,
            } + line_and_indent(c);
            begins_in_order3(
                t,
                head,
                stretchy_op_mathml(StretchMode::Fence, open),
                node_mathml(*content, c, (fuel - 1) as nat),
                line_and_indent(c) + stretchy_op_mathml(StretchMode::Fence, close),
            )
        }),
{
    reveal(node_mathml);
    reveal(row_mathml);
    reveal(entries_mathml);
    reveal(table_mathml);
    let c = child(b);
    let f = (fuel - 1) as nat;
    let t = node_mathml(Node::Fenced { style, open, close, content }, b, fuel);
    let head = line_and_indent(b) + match style {
        Some(st) => "<mrow"@ + st.text() + ">"@,
        None => "<mrow>"@,
    } + line_and_indent(c);
    let o = stretchy_op_mathml(StretchMode::Fence, open);
    let x = node_mathml(*content, c, f);
    let cl = line_and_indent(c) + stretchy_op_mathml(StretchMode::Fence, close);
    let rest = line_and_indent(b) + "</mrow>"@;
    lemma_begins_in_order3(head, o, x, cl, rest);
    assert(t =~= head + o + x + cl + rest);
}

fn write_mo_open(s: &mut String, attr: Option<OpAttr>, left: Option<MathSpacing>, right: Option<MathSpacing>)
    ensures
        final(s)@ == old(s)@ + mo_open(attr, left, right),
{
    let ghost a_text = match attr {
        Some(a) => a.text(),
        None => Seq::<char>::empty(),
    };
    let ghost l_text = match left {
        Some(l) => " lspace=\""@ + l.text() + "\""@,
        None => Seq::<char>::empty(),
    };
    let ghost r_text = match right {
        Some(r) => " rspace=\""@ + r.text() + "\""@,
        None => Seq::<char>::empty(),
    };
    s.push_str("<mo");
    let ghost s1 = s@;
    if let Some(a) = attr {
        s.push_str(a.as_str());
    }
    assert(s@ =~= s1 + a_text);
    let ghost s2 = s@;
    if let Some(l) = left {
        s.push_str(" lspace=\"");
        s.push_str(l.as_str());
        s.push_str("\"");
    }
    assert(s@ =~= s2 + l_text);
    let ghost s3 = s@;
    if let Some(r) = right {
        s.push_str(" rspace=\"");
        s.push_str(r.as_str());
        s.push_str("\"");
    }
    assert(s@ =~= s3 + r_text);
    assert(mo_open(attr, left, right) == "<mo"@ + a_text + l_text + r_text);
    assert(final(s)@ =~= old(s)@ + mo_open(attr, left, right));
}

impl<'arena> Node<'arena> {
    /// Writes a node without children (after its line break).
    #[verifier::rlimit(40)]
    fn write_leaf(&self, s: &mut String)
        requires
            is_leaf(*self),
            self matches Node::StretchableOp(op, _) ==> op.wf(),
            self matches Node::SizedParen(_, op) ==> op.wf(),
        ensures
            final(s)@ == old(s)@ + leaf_mathml(*self),
    {
        match self {
            Node::Number(t) => {
                s.push_str("<mn>");
                s.push_str(t);
                s.push_str("</mn>");
            },
            Node::IdentifierChar(x, attr) => {
                let upright = matches!(attr, LetterAttr::ForcedUpright);
                if upright {
                    s.push_str("<mpadded><mi mathvariant=\"normal\">");
                } else {
                    s.push_str("<mi>");
                }
                s.push(*x);
                s.push_str("</mi>");
                if upright {
                    s.push_str("</mpadded>");
                }
                proof {
                    reveal_strlit("</mi></mpadded>");
                    reveal_strlit("</mi>");
                    reveal_strlit("</mpadded>");
                }
            },
            Node::StretchableOp(op, mode) => {
                if op.ordinary_spacing() && matches!(mode, StretchMode::NoStretch) {
                    s.push_str("<mi>");
                    s.push(op.as_char());
                    s.push_str("</mi>");
                } else {
                    let _ = emit_stretchy_op(s, *mode, Some(*op));
                }
            },
            Node::Operator { op, attr, left, right } => {
                write_mo_open(s, *attr, *left, *right);
                s.push_str(">");
                s.push(op.as_char());
                s.push_str("</mo>");
            },
            Node::PseudoOp { attr, left, right, name } => {
                write_mo_open(s, *attr, *left, *right);
                s.push_str(">");
                s.push_str(name);
                s.push_str("</mo>");
            },
            Node::IdentifierStr(with_tf, t) => {
                if *with_tf {
                    s.push_str("<mi>");
                    s.push_str(t);
                    s.push_str("</mi>");
                } else {
                    s.push_str("<mpadded><mi>");
                    s.push_str(t);
                    s.push_str("</mi></mpadded>");
                }
            },
            Node::Text(style, t) => {
                let (open, close) = match style {
                    Some(st) => st.tags(),
                    None => ("<mtext>", "</mtext>"),
                };
                s.push_str(open);
                s.push_str(t);
                s.push_str(close);
            },
            Node::Space(width, unit) => {
                s.push_str("<mspace width=\"");
                s.push_str(width);
                // Firefox does not apply a width in rem; the style repeats it.
                if matches!(unit, LengthUnit::Rem) {
                    s.push_str("\" style=\"width:");
                    s.push_str(width);
                }
                s.push_str("\"/>");
            },
            Node::SizedParen(size, op) => {
                s.push_str("<mo maxsize=\"");
                s.push_str(size.as_str());
                s.push_str("\" minsize=\"");
                s.push_str(size.as_str());
                s.push_str("\"");
                match op.stretchy_kind() {
                    Stretchy::PrePostfix | Stretchy::Never => {
                        s.push_str(" stretchy=\"true\" symmetric=\"true\"");
                    },
                    Stretchy::AlwaysAsymmetric => {
                        s.push_str(" symmetric=\"true\"");
                    },
                    Stretchy::Always => {},
                }
                s.push_str(">");
                s.push(op.as_char());
                s.push_str("</mo>");
            },
            Node::HardcodedMathML(t) => {
                s.push_str(t);
            },
            _ => {},
        }
        assert(final(s)@ =~= old(s)@ + leaf_mathml(*self));
    }
}

impl<'arena> Node<'arena> {
    /// Writes the node as MathML, indented by `base_indent` levels (with no
    /// line breaks at all when `base_indent` is zero).
    pub fn emit(&self, s: &mut String, base_indent: usize) -> (r: Result<(), core::fmt::Error>)
        requires
            emittable(*self, max_depth()),
        ensures
            r is Ok,
            final(s)@ == old(s)@ + node_mathml(*self, base_indent as nat, max_depth()),
    {
        self.write_fuel(s, base_indent, usize::MAX);
        Ok(())
    }

    /// Writes the node within a depth budget of `fuel`.
    fn write_fuel(&self, s: &mut String, b: usize, fuel: usize)
        requires
            emittable(*self, fuel as nat),
        ensures
            final(s)@ == old(s)@ + node_mathml(*self, b as nat, fuel as nat),
        decreases fuel, 2nat,
    {
        proof {
            reveal(emittable);
            reveal(entry_ok);
        }
        match self {
            Node::Subscript { .. } => {
                self.write_subscript(s, b, fuel);
            },
            Node::Superscript { .. } => {
                self.write_superscript(s, b, fuel);
            },
            Node::Overset { .. } => {
                self.write_overset(s, b, fuel);
            },
            Node::Underset { .. } => {
                self.write_underset(s, b, fuel);
            },
            Node::Root(..) => {
                self.write_root(s, b, fuel);
            },
            Node::SubSup { .. } => {
                self.write_sub_sup(s, b, fuel);
            },
            Node::UnderOver { .. } => {
                self.write_under_over(s, b, fuel);
            },
            Node::Multiscript { .. } => {
                self.write_multiscript(s, b, fuel);
            },
            Node::OverOp(..) => {
                self.write_over_op(s, b, fuel);
            },
            Node::UnderOp(..) => {
                self.write_under_op(s, b, fuel);
            },
            Node::Sqrt(..) => {
                self.write_sqrt(s, b, fuel);
            },
            Node::Frac { .. } => {
                self.write_frac(s, b, fuel);
            },
            Node::Row { .. } => {
                self.write_row(s, b, fuel);
            },
            Node::Fenced { .. } => {
                self.write_fenced(s, b, fuel);
            },
            Node::Slashed(..) => {
                self.write_slashed(s, b, fuel);
            },
            Node::Table { .. } => {
                self.write_table_node(s, b, fuel);
            },
            Node::EquationArray { .. } => {
                self.write_equation_array(s, b, fuel);
            },
            Node::Array { .. } => {
                self.write_array(s, b, fuel);
            },
            Node::Enclose { .. } => {
                self.write_enclose(s, b, fuel);
            },
            _ => {
                self.write_leaf_node(s, b, fuel);
            },
        }
    }

    /// A node without children, after its line break (none for the nodes
    /// that write nothing).
    #[verifier::rlimit(40)]
    fn write_leaf_node(&self, s: &mut String, b: usize, fuel: usize)
        requires
            emittable(*self, fuel as nat),
            is_leaf(*self),
        ensures
            final(s)@ == old(s)@ + node_mathml(*self, b as nat, fuel as nat),
        decreases fuel, 1nat,
    {
        proof {
            reveal(node_mathml);
            reveal(row_mathml);
            reveal(entries_mathml);
            reveal(table_mathml);
            reveal(emittable);
            reveal(entry_ok);
        }
        if !matches!(self, Node::Dummy | Node::RowSeparator(_)) {
            new_line_and_indent(s, b);
        }
        self.write_leaf(s);
        assert(final(s)@ =~= old(s)@ + node_mathml(*self, b as nat, fuel as nat));
    }

    /// Writes a subscript.
    #[verifier::rlimit(100)]
    #[verifier::spinoff_prover]
    fn write_subscript(&self, s: &mut String, b: usize, fuel: usize)
        requires
            emittable(*self, fuel as nat),
            *self is Subscript,
        ensures
            final(s)@ == old(s)@ + node_mathml(*self, b as nat, fuel as nat),
        decreases fuel, 1nat,
    {
        proof {
            reveal(node_mathml);
            reveal(row_mathml);
            reveal(entries_mathml);
            reveal(table_mathml);
            reveal(emittable);
            reveal(entry_ok);
        }
        let f = fuel - 1;
        let c = child_indent(b);
        new_line_and_indent(s, b);
        match self {
            Node::Subscript { target, symbol } => {
                s.push_str("<msub>");
                target.write_fuel(s, c, f);
                symbol.write_fuel(s, c, f);
                new_line_and_indent(s, b);
                s.push_str("</msub>");
            },
            _ => {},
        }
        assert(final(s)@ =~= old(s)@ + node_mathml(*self, b as nat, fuel as nat));
    }

    /// Writes a superscript.
    #[verifier::rlimit(100)]
    #[verifier::spinoff_prover]
    fn write_superscript(&self, s: &mut String, b: usize, fuel: usize)
        requires
            emittable(*self, fuel as nat),
            *self is Superscript,
        ensures
            final(s)@ == old(s)@ + node_mathml(*self, b as nat, fuel as nat),
        decreases fuel, 1nat,
    {
        proof {
            reveal(node_mathml);
            reveal(row_mathml);
            reveal(entries_mathml);
            reveal(table_mathml);
            reveal(emittable);
            reveal(entry_ok);
        }
        let f = fuel - 1;
        let c = child_indent(b);
        new_line_and_indent(s, b);
        match self {
            Node::Superscript { target, symbol } => {
                s.push_str("<msup>");
                target.write_fuel(s, c, f);
                symbol.write_fuel(s, c, f);
                new_line_and_indent(s, b);
                s.push_str("</msup>");
            },
            _ => {},
        }
        assert(final(s)@ =~= old(s)@ + node_mathml(*self, b as nat, fuel as nat));
    }

    /// Writes a symbol set over another.
    #[verifier::rlimit(100)]
    #[verifier::spinoff_prover]
    fn write_overset(&self, s: &mut String, b: usize, fuel: usize)
        requires
            emittable(*self, fuel as nat),
            *self is Overset,
        ensures
            final(s)@ == old(s)@ + node_mathml(*self, b as nat, fuel as nat),
        decreases fuel, 1nat,
    {
        proof {
            reveal(node_mathml);
            reveal(row_mathml);
            reveal(entries_mathml);
            reveal(table_mathml);
            reveal(emittable);
            reveal(entry_ok);
        }
        let f = fuel - 1;
        let c = child_indent(b);
        new_line_and_indent(s, b);
        match self {
            Node::Overset { symbol, target } => {
                s.push_str("<mover>");
                target.write_fuel(s, c, f);
                symbol.write_fuel(s, c, f);
                new_line_and_indent(s, b);
                s.push_str("</mover>");
            },
            _ => {},
        }
        assert(final(s)@ =~= old(s)@ + node_mathml(*self, b as nat, fuel as nat));
    }

    /// Writes a symbol set under another.
    #[verifier::rlimit(100)]
    #[verifier::spinoff_prover]
    fn write_underset(&self, s: &mut String, b: usize, fuel: usize)
        requires
            emittable(*self, fuel as nat),
            *self is Underset,
        ensures
            final(s)@ == old(s)@ + node_mathml(*self, b as nat, fuel as nat),
        decreases fuel, 1nat,
    {
        proof {
            reveal(node_mathml);
            reveal(row_mathml);
            reveal(entries_mathml);
            reveal(table_mathml);
            reveal(emittable);
            reveal(entry_ok);
        }
        let f = fuel - 1;
        let c = child_indent(b);
        new_line_and_indent(s, b);
        match self {
            Node::Underset { symbol, target } => {
                s.push_str("<munder>");
                target.write_fuel(s, c, f);
                symbol.write_fuel(s, c, f);
                new_line_and_indent(s, b);
                s.push_str("</munder>");
            },
            _ => {},
        }
        assert(final(s)@ =~= old(s)@ + node_mathml(*self, b as nat, fuel as nat));
    }

    /// Writes a root with an index.
    #[verifier::rlimit(100)]
    #[verifier::spinoff_prover]
    fn write_root(&self, s: &mut String, b: usize, fuel: usize)
        requires
            emittable(*self, fuel as nat),
            *self is Root,
        ensures
            final(s)@ == old(s)@ + node_mathml(*self, b as nat, fuel as nat),
        decreases fuel, 1nat,
    {
        proof {
            reveal(node_mathml);
            reveal(row_mathml);
            reveal(entries_mathml);
            reveal(table_mathml);
            reveal(emittable);
            reveal(entry_ok);
        }
        let f = fuel - 1;
        let c = child_indent(b);
        new_line_and_indent(s, b);
        match self {
            Node::Root(second, first) => {
                s.push_str("<mroot>");
                first.write_fuel(s, c, f);
                second.write_fuel(s, c, f);
                new_line_and_indent(s, b);
                s.push_str("</mroot>");
            },
            _ => {},
        }
        assert(final(s)@ =~= old(s)@ + node_mathml(*self, b as nat, fuel as nat));
    }

    /// Writes a node with a subscript and a superscript.
    #[verifier::rlimit(100)]
    #[verifier::spinoff_prover]
    fn write_sub_sup(&self, s: &mut String, b: usize, fuel: usize)
        requires
            emittable(*self, fuel as nat),
            *self is SubSup,
        ensures
            final(s)@ == old(s)@ + node_mathml(*self, b as nat, fuel as nat),
        decreases fuel, 1nat,
    {
        proof {
            reveal(node_mathml);
            reveal(row_mathml);
            reveal(entries_mathml);
            reveal(table_mathml);
            reveal(emittable);
            reveal(entry_ok);
        }
        let f = fuel - 1;
        let c = child_indent(b);
        new_line_and_indent(s, b);
        match self {
            Node::SubSup { target, sub, sup } => {
                s.push_str("<msubsup>");
                target.write_fuel(s, c, f);
                sub.write_fuel(s, c, f);
                sup.write_fuel(s, c, f);
                new_line_and_indent(s, b);
                s.push_str("</msubsup>");
            },
            _ => {},
        }
        assert(final(s)@ =~= old(s)@ + node_mathml(*self, b as nat, fuel as nat));
    }

    /// Writes a node with limits under and over it.
    #[verifier::rlimit(100)]
    #[verifier::spinoff_prover]
    fn write_under_over(&self, s: &mut String, b: usize, fuel: usize)
        requires
            emittable(*self, fuel as nat),
            *self is UnderOver,
        ensures
            final(s)@ == old(s)@ + node_mathml(*self, b as nat, fuel as nat),
        decreases fuel, 1nat,
    {
        proof {
            reveal(node_mathml);
            reveal(row_mathml);
            reveal(entries_mathml);
            reveal(table_mathml);
            reveal(emittable);
            reveal(entry_ok);
        }
        let f = fuel - 1;
        let c = child_indent(b);
        new_line_and_indent(s, b);
        match self {
            Node::UnderOver { target, under, over } => {
                s.push_str("<munderover>");
                target.write_fuel(s, c, f);
                under.write_fuel(s, c, f);
                over.write_fuel(s, c, f);
                new_line_and_indent(s, b);
                s.push_str("</munderover>");
            },
            _ => {},
        }
        assert(final(s)@ =~= old(s)@ + node_mathml(*self, b as nat, fuel as nat));
    }

    /// Writes a node with scripts before it.
    #[verifier::rlimit(100)]
    #[verifier::spinoff_prover]
    fn write_multiscript(&self, s: &mut String, b: usize, fuel: usize)
        requires
            emittable(*self, fuel as nat),
            *self is Multiscript,
        ensures
            final(s)@ == old(s)@ + node_mathml(*self, b as nat, fuel as nat),
        decreases fuel, 1nat,
    {
        proof {
            reveal(node_mathml);
            reveal(row_mathml);
            reveal(entries_mathml);
            reveal(table_mathml);
            reveal(emittable);
            reveal(entry_ok);
        }
        let f = fuel - 1;
        let c = child_indent(b);
        new_line_and_indent(s, b);
        match self {
            Node::Multiscript { base, sub, sup } => {
                s.push_str("<mmultiscripts>");
                base.write_fuel(s, c, f);
                new_line_and_indent(s, c);
                s.push_str("<mprescripts/>");
                let ghost s1 = s@;
                write_script_or_empty(s, *sub, c, f);
                write_script_or_empty(s, *sup, c, f);
                let ghost scripts = match *sub {
                    Some(x) => node_mathml(*x, c as nat, f as nat),
                    None => line_and_indent(c as nat) + "<mrow></mrow>"@,
                } + match *sup {
                    Some(x) => node_mathml(*x, c as nat, f as nat),
                    None => line_and_indent(c as nat) + "<mrow></mrow>"@,
                };
                assert(s@ =~= s1 + scripts);
                new_line_and_indent(s, b);
                s.push_str("</mmultiscripts>");
            },
            _ => {},
        }
        assert(final(s)@ =~= old(s)@ + node_mathml(*self, b as nat, fuel as nat));
    }

    /// Writes an accent over a node.
    #[verifier::rlimit(100)]
    #[verifier::spinoff_prover]
    fn write_over_op(&self, s: &mut String, b: usize, fuel: usize)
        requires
            emittable(*self, fuel as nat),
            *self is OverOp,
        ensures
            final(s)@ == old(s)@ + node_mathml(*self, b as nat, fuel as nat),
        decreases fuel, 1nat,
    {
        proof {
            reveal(node_mathml);
            reveal(row_mathml);
            reveal(entries_mathml);
            reveal(table_mathml);
            reveal(emittable);
            reveal(entry_ok);
        }
        let f = fuel - 1;
        let c = child_indent(b);
        new_line_and_indent(s, b);
        match self {
            Node::OverOp(op, attr, target) => {
                s.push_str("<mover accent=\"true\">");
                target.write_fuel(s, c, f);
                new_line_and_indent(s, c);
                s.push_str("<mo");
                if let Some(attr) = attr {
                    s.push_str(attr.as_str());
                }
                s.push_str(">");
                s.push(op.as_char());
                s.push_str("</mo>");
                new_line_and_indent(s, b);
                s.push_str("</mover>");
            },
            _ => {},
        }
        assert(final(s)@ =~= old(s)@ + node_mathml(*self, b as nat, fuel as nat));
    }

    /// Writes an accent under a node.
    #[verifier::rlimit(100)]
    #[verifier::spinoff_prover]
    fn write_under_op(&self, s: &mut String, b: usize, fuel: usize)
        requires
            emittable(*self, fuel as nat),
            *self is UnderOp,
        ensures
            final(s)@ == old(s)@ + node_mathml(*self, b as nat, fuel as nat),
        decreases fuel, 1nat,
    {
        proof {
            reveal(node_mathml);
            reveal(row_mathml);
            reveal(entries_mathml);
            reveal(table_mathml);
            reveal(emittable);
            reveal(entry_ok);
        }
        let f = fuel - 1;
        let c = child_indent(b);
        new_line_and_indent(s, b);
        match self {
            Node::UnderOp(op, target) => {
                s.push_str("<munder accentunder=\"true\">");
                target.write_fuel(s, c, f);
                new_line_and_indent(s, c);
                s.push_str("<mo>");
                s.push(op.as_char());
                s.push_str("</mo>");
                new_line_and_indent(s, b);
                s.push_str("</munder>");
            },
            _ => {},
        }
        assert(final(s)@ =~= old(s)@ + node_mathml(*self, b as nat, fuel as nat));
    }

    /// Writes a square root.
    #[verifier::rlimit(100)]
    #[verifier::spinoff_prover]
    fn write_sqrt(&self, s: &mut String, b: usize, fuel: usize)
        requires
            emittable(*self, fuel as nat),
            *self is Sqrt,
        ensures
            final(s)@ == old(s)@ + node_mathml(*self, b as nat, fuel as nat),
        decreases fuel, 1nat,
    {
        proof {
            reveal(node_mathml);
            reveal(row_mathml);
            reveal(entries_mathml);
            reveal(table_mathml);
            reveal(emittable);
            reveal(entry_ok);
        }
        let f = fuel - 1;
        let c = child_indent(b);
        new_line_and_indent(s, b);
        match self {
            Node::Sqrt(content) => {
                s.push_str("<msqrt>");
                content.write_fuel(s, c, f);
                new_line_and_indent(s, b);
                s.push_str("</msqrt>");
            },
            _ => {},
        }
        assert(final(s)@ =~= old(s)@ + node_mathml(*self, b as nat, fuel as nat));
    }

    /// Writes a fraction.
    #[verifier::rlimit(100)]
    #[verifier::spinoff_prover]
    fn write_frac(&self, s: &mut String, b: usize, fuel: usize)
        requires
            emittable(*self, fuel as nat),
            *self is Frac,
        ensures
            final(s)@ == old(s)@ + node_mathml(*self, b as nat, fuel as nat),
        decreases fuel, 1nat,
    {
        proof {
            reveal(node_mathml);
            reveal(row_mathml);
            reveal(entries_mathml);
            reveal(table_mathml);
            reveal(emittable);
            reveal(entry_ok);
        }
        let f = fuel - 1;
        let c = child_indent(b);
        new_line_and_indent(s, b);
        match self {
            Node::Frac { num, denom, line_thickness, attr } => {
                write_frac_open(s, *line_thickness, *attr);
                num.write_fuel(s, c, f);
                denom.write_fuel(s, c, f);
                new_line_and_indent(s, b);
                s.push_str("</mfrac>");
            },
            _ => {},
        }
        assert(final(s)@ =~= old(s)@ + node_mathml(*self, b as nat, fuel as nat));
    }

    /// Writes a row.
    #[verifier::rlimit(100)]
    #[verifier::spinoff_prover]
    fn write_row(&self, s: &mut String, b: usize, fuel: usize)
        requires
            emittable(*self, fuel as nat),
            *self is Row,
        ensures
            final(s)@ == old(s)@ + node_mathml(*self, b as nat, fuel as nat),
        decreases fuel, 1nat,
    {
        proof {
            reveal(node_mathml);
            reveal(row_mathml);
            reveal(entries_mathml);
            reveal(table_mathml);
            reveal(emittable);
            reveal(entry_ok);
        }
        let f = fuel - 1;
        let c = child_indent(b);
        new_line_and_indent(s, b);
        let ghost mid = s@;
        match self {
            Node::Row { nodes, attr } => {
                match attr {
                    RowAttr::NoAttr => {
                        s.push_str("<mrow>");
                    },
                    RowAttr::Style(st) => {
                        s.push_str("<mrow");
                        s.push_str(st.as_str());
                        s.push_str(">");
                    },
                    RowAttr::Color(r, g, bl) => {
                        s.push_str("<mrow style=\"color:#");
                        append_u8_as_hex(s, *r);
                        append_u8_as_hex(s, *g);
                        append_u8_as_hex(s, *bl);
                        s.push_str(";\">");
                    },
                }
                let ghost s1 = s@;
                assert(s1 =~= mid + row_open(*attr));
                let ghost ns = nodes@;
                proof {
                    lemma_row_start(ns, c as nat, f as nat);
                }
                let mut i: usize = 0;
                while i < nodes.len()
                    invariant
                        i <= ns.len(),
                        ns == nodes@,
                        f == fuel - 1,
                        forall|j: int| 0 <= j < ns.len() ==> emittable(*#[trigger] ns[j], f as nat),
                        s@ == s1 + row_mathml(ns, i as nat, c as nat, f as nat),
                    decreases ns.len() - i,
                {
                    nodes[i].write_fuel(s, c, f);
                    proof {
                        lemma_row_step(ns, i as nat, c as nat, f as nat);
                    }
                    i = i + 1;
                    assert(s@ =~= s1 + row_mathml(ns, i as nat, c as nat, f as nat));
                }
                new_line_and_indent(s, b);
                s.push_str("</mrow>");
            },
            _ => {},
        }
        assert(final(s)@ =~= old(s)@ + node_mathml(*self, b as nat, fuel as nat));
    }

    /// Writes a fenced node.
    #[verifier::rlimit(100)]
    #[verifier::spinoff_prover]
    fn write_fenced(&self, s: &mut String, b: usize, fuel: usize)
        requires
            emittable(*self, fuel as nat),
            *self is Fenced,
        ensures
            final(s)@ == old(s)@ + node_mathml(*self, b as nat, fuel as nat),
        decreases fuel, 1nat,
    {
        proof {
            reveal(node_mathml);
            reveal(row_mathml);
            reveal(entries_mathml);
            reveal(table_mathml);
            reveal(emittable);
            reveal(entry_ok);
        }
        let f = fuel - 1;
        let c = child_indent(b);
        new_line_and_indent(s, b);
        match self {
            Node::Fenced { style, open, close, content } => {
                write_row_open(s, *style);
                new_line_and_indent(s, c);
                let _ = emit_stretchy_op(s, StretchMode::Fence, *open);
                content.write_fuel(s, c, f);
                new_line_and_indent(s, c);
                let _ = emit_stretchy_op(s, StretchMode::Fence, *close);
                new_line_and_indent(s, b);
                s.push_str("</mrow>");
            },
            _ => {},
        }
        assert(final(s)@ =~= old(s)@ + node_mathml(*self, b as nat, fuel as nat));
    }

    /// Writes a slashed node.
    #[verifier::rlimit(100)]
    #[verifier::spinoff_prover]
    fn write_slashed(&self, s: &mut String, b: usize, fuel: usize)
        requires
            emittable(*self, fuel as nat),
            *self is Slashed,
        ensures
            final(s)@ == old(s)@ + node_mathml(*self, b as nat, fuel as nat),
        decreases fuel, 1nat,
    {
        proof {
            reveal(node_mathml);
            reveal(row_mathml);
            reveal(entries_mathml);
            reveal(table_mathml);
            reveal(emittable);
            reveal(entry_ok);
        }
        let f = fuel - 1;
        let c = child_indent(b);
        new_line_and_indent(s, b);
        match self {
            Node::Slashed(inner) => match inner {
                Node::IdentifierChar(x, attr) => {
                    if matches!(attr, LetterAttr::ForcedUpright) {
                        s.push_str("<mi mathvariant=\"normal\">");
                    } else {
                        s.push_str("<mi>");
                    }
                    s.push(*x);
                    s.push_str("&#x0338;</mi>");
                },
                Node::Operator { op, .. } => {
                    s.push_str("<mo>");
                    s.push(op.as_char());
                    s.push_str("&#x0338;</mo>");
                },
                other => {
                    other.write_fuel(s, b, f);
                },
            },
            _ => {},
        }
        assert(final(s)@ =~= old(s)@ + node_mathml(*self, b as nat, fuel as nat));
    }

    /// Writes a table with predefined alignment.
    #[verifier::rlimit(100)]
    #[verifier::spinoff_prover]
    fn write_table_node(&self, s: &mut String, b: usize, fuel: usize)
        requires
            emittable(*self, fuel as nat),
            *self is Table,
        ensures
            final(s)@ == old(s)@ + node_mathml(*self, b as nat, fuel as nat),
        decreases fuel, 1nat,
    {
        proof {
            reveal(node_mathml);
            reveal(row_mathml);
            reveal(entries_mathml);
            reveal(table_mathml);
            reveal(emittable);
            reveal(entry_ok);
        }
        let f = fuel - 1;
        let c = child_indent(b);
        new_line_and_indent(s, b);
        match self {
            Node::Table { content, align, style } => {
                write_mtable_open(s, None, *style);
                write_table_rows(s, b, content, ColumnGenerator::new_predefined(*align), false, None, f);
            },
            _ => {},
        }
        assert(final(s)@ =~= old(s)@ + node_mathml(*self, b as nat, fuel as nat));
    }

    /// Writes an equation array.
    #[verifier::rlimit(100)]
    #[verifier::spinoff_prover]
    fn write_equation_array(&self, s: &mut String, b: usize, fuel: usize)
        requires
            emittable(*self, fuel as nat),
            *self is EquationArray,
        ensures
            final(s)@ == old(s)@ + node_mathml(*self, b as nat, fuel as nat),
        decreases fuel, 1nat,
    {
        proof {
            reveal(node_mathml);
            reveal(row_mathml);
            reveal(entries_mathml);
            reveal(table_mathml);
            reveal(emittable);
            reveal(entry_ok);
        }
        let f = fuel - 1;
        let c = child_indent(b);
        new_line_and_indent(s, b);
        match self {
            Node::EquationArray { content, align, last_equation_num } => {
                s.push_str("<mtable displaystyle=\"true\" scriptlevel=\"0\" style=\"width: 100%\">");
                write_table_rows(
                    s,
                    b,
                    content,
                    ColumnGenerator::new_predefined(*align),
                    true,
                    *last_equation_num,
                    f,
                );
            },
            _ => {},
        }
        assert(final(s)@ =~= old(s)@ + node_mathml(*self, b as nat, fuel as nat));
    }

    /// Writes an array with custom columns.
    #[verifier::rlimit(100)]
    #[verifier::spinoff_prover]
    fn write_array(&self, s: &mut String, b: usize, fuel: usize)
        requires
            emittable(*self, fuel as nat),
            *self is Array,
        ensures
            final(s)@ == old(s)@ + node_mathml(*self, b as nat, fuel as nat),
        decreases fuel, 1nat,
    {
        proof {
            reveal(node_mathml);
            reveal(row_mathml);
            reveal(entries_mathml);
            reveal(table_mathml);
            reveal(emittable);
            reveal(entry_ok);
        }
        let f = fuel - 1;
        let c = child_indent(b);
        new_line_and_indent(s, b);
        match self {
            Node::Array { style, content, array_spec } => {
                write_mtable_open(s, array_spec.beginning_line, *style);
                write_table_rows(s, b, content, ColumnGenerator::new_custom(array_spec), false, None, f);
            },
            _ => {},
        }
        assert(final(s)@ =~= old(s)@ + node_mathml(*self, b as nat, fuel as nat));
    }

    /// Writes an enclosure.
    #[verifier::rlimit(100)]
    #[verifier::spinoff_prover]
    fn write_enclose(&self, s: &mut String, b: usize, fuel: usize)
        requires
            emittable(*self, fuel as nat),
            *self is Enclose,
        ensures
            final(s)@ == old(s)@ + node_mathml(*self, b as nat, fuel as nat),
        decreases fuel, 1nat,
    {
        proof {
            reveal(node_mathml);
            reveal(row_mathml);
            reveal(entries_mathml);
            reveal(table_mathml);
            reveal(emittable);
            reveal(entry_ok);
        }
        let f = fuel - 1;
        let c = child_indent(b);
        new_line_and_indent(s, b);
        match self {
            Node::Enclose { content, notation } => {
                s.push_str("<menclose notation=\"");
                write_notation_names(s, *notation);
                s.push_str("\">");
                content.write_fuel(s, c, f);
                write_strike_rows(s, *notation, c);
                new_line_and_indent(s, b);
                s.push_str("</menclose>");
            },
            _ => {},
        }
        assert(final(s)@ =~= old(s)@ + node_mathml(*self, b as nat, fuel as nat));
    }
}

/// Writes a script of a multiscript, or an empty row where there is none.
fn write_script_or_empty<'a>(s: &mut String, x: Option<&'a Node<'a>>, c: usize, fuel: usize)
    requires
        x matches Some(n) ==> emittable(*n, fuel as nat),
    ensures
        final(s)@ == old(s)@ + match x {
            Some(n) => node_mathml(*n, c as nat, fuel as nat),
            None => line_and_indent(c as nat) + "<mrow></mrow>"@,
        },
    decreases fuel, 3nat,
{
    if let Some(n) = x {
        n.write_fuel(s, c, fuel);
    } else {
        new_line_and_indent(s, c);
        s.push_str("<mrow></mrow>");
    }
}

/// Writes the opening tag of a fenced row.
fn write_row_open(s: &mut String, style: Option<Style>)
    ensures
        final(s)@ == old(s)@ + match style {
            Some(st) => "<mrow"@ + st.text() + ">"@,
            None => "<mrow>"@,
        },
{
    if let Some(st) = style {
        s.push_str("<mrow");
        s.push_str(st.as_str());
        s.push_str(">");
    } else {
        s.push_str("<mrow>");
    }
}

/// Writes the opening tag of a fraction.
fn write_frac_open(s: &mut String, line_thickness: Option<&str>, attr: Option<FracAttr>)
    ensures
        final(s)@ == old(s)@ + "<mfrac"@ + match line_thickness {
            Some(t) => " linethickness=\""@ + t@ + "\""@,
            None => Seq::empty(),
        } + match attr {
            Some(a) => a.text(),
            None => Seq::empty(),
        } + ">"@,
{
    s.push_str("<mfrac");
    let ghost s1 = s@;
    if let Some(t) = line_thickness {
        s.push_str(" linethickness=\"");
        s.push_str(t);
        s.push_str("\"");
    }
    assert(s@ =~= s1 + match line_thickness {
        Some(t) => " linethickness=\""@ + t@ + "\""@,
        None => Seq::<char>::empty(),
    });
    let ghost s2 = s@;
    if let Some(a) = attr {
        s.push_str(a.as_str());
    }
    assert(s@ =~= s2 + match attr {
        Some(a) => a.text(),
        None => Seq::<char>::empty(),
    });
    s.push_str(">");
    assert(final(s)@ =~= old(s)@ + "<mfrac"@ + match line_thickness {
        Some(t) => " linethickness=\""@ + t@ + "\""@,
        None => Seq::empty(),
    } + match attr {
        Some(a) => a.text(),
        None => Seq::empty(),
    } + ">"@);
}

/// Writes the names of the strikes of an enclosure.
fn write_notation_names(s: &mut String, n: Notation)
    ensures
        final(s)@ == old(s)@ + notation_names(n),
{
    if n.up {
        s.push_str("updiagonalstrike");
    }
    let ghost s1 = s@;
    if n.down {
        if n.up {
            s.push_str(" ");
        }
        s.push_str("downdiagonalstrike");
    }
    assert(s@ =~= s1 + if n.down {
        (if n.up {
            " "@
        } else {
            Seq::<char>::empty()
        }) + "downdiagonalstrike"@
    } else {
        Seq::<char>::empty()
    });
    let ghost s2 = s@;
    if n.horizontal {
        if n.up {
            s.push_str(" ");
        }
        s.push_str("horizontalstrike");
    }
    assert(s@ =~= s2 + if n.horizontal {
        (if n.up {
            " "@
        } else {
            Seq::<char>::empty()
        }) + "horizontalstrike"@
    } else {
        Seq::<char>::empty()
    });
    assert(final(s)@ =~= old(s)@ + notation_names(n));
}

/// Writes the rows that draw the strikes of an enclosure.
fn write_strike_rows(s: &mut String, n: Notation, c: usize)
    ensures
        final(s)@ == old(s)@ + strike_rows(n, c as nat),
{
    if n.up {
        new_line_and_indent(s, c);
        s.push_str("<mrow class=\"menclose-updiagonalstrike\"></mrow>");
    }
    let ghost s1 = s@;
    if n.down {
        new_line_and_indent(s, c);
        s.push_str("<mrow class=\"menclose-downdiagonalstrike\"></mrow>");
    }
    assert(s@ =~= s1 + if n.down {
        line_and_indent(c as nat) + "<mrow class=\"menclose-downdiagonalstrike\"></mrow>"@
    } else {
        Seq::<char>::empty()
    });
    let ghost s2 = s@;
    if n.horizontal {
        new_line_and_indent(s, c);
        s.push_str("<mrow class=\"menclose-horizontalstrike\"></mrow>");
    }
    assert(s@ =~= s2 + if n.horizontal {
        line_and_indent(c as nat) + "<mrow class=\"menclose-horizontalstrike\"></mrow>"@
    } else {
        Seq::<char>::empty()
    });
    assert(final(s)@ =~= old(s)@ + strike_rows(n, c as nat));
}

/// Writes the opening tag of a table, with a line on its left and a style
/// where they are given.
fn write_mtable_open(s: &mut String, line: Option<LineType>, style: Option<Style>)
    ensures
        final(s)@ == old(s)@ + "<mtable"@ + beginning_line_text(line) + style_text(style) + ">"@,
{
    s.push_str("<mtable");
    let ghost s1 = s@;
    match line {
        Some(LineType::Solid) => {
            s.push_str(" style=\"border-left: 0.05em solid currentcolor\"");
        },
        Some(LineType::Dashed) => {
            s.push_str(" style=\"border-left: 0.05em dashed currentcolor\"");
        },
        None => {},
    }
    assert(s@ =~= s1 + beginning_line_text(line));
    let ghost s2 = s@;
    if let Some(st) = style {
        s.push_str(st.as_str());
    }
    assert(s@ =~= s2 + style_text(style));
    s.push_str(">");
    assert(final(s)@ =~= old(s)@ + "<mtable"@ + beginning_line_text(line) + style_text(style) + ">"@);
}

/// Closes a cell and opens the next one.
fn write_cell_break<'a>(s: &mut String, col_gen: &mut ColumnGenerator<'a>, c2: usize)
    requires
        old(col_gen).column_index() + 2 <= usize::MAX,
        column_count(old(col_gen).kind()) + 2 <= usize::MAX,
    ensures
        final(col_gen).kind() == old(col_gen).kind(),
        final(s)@ == old(s)@ + cell_break_text(old(col_gen).kind(), old(col_gen).column_index(), c2 as nat),
        final(col_gen).column_index() == next_mtd(
            old(col_gen).kind(),
            old(col_gen).column_index(),
            c2 as nat,
        ).1,
{
    new_line_and_indent(s, c2);
    s.push_str("</mtd>");
    col_gen.write_next_mtd(s, c2);
    assert(final(s)@ =~= old(s)@ + cell_break_text(old(col_gen).kind(), old(col_gen).column_index(), c2 as nat));
}

/// Closes a cell and its row (with the row's equation number in an equation
/// array), and opens a new row and its first cell.
fn write_row_break<'a>(
    s: &mut String,
    col_gen: &mut ColumnGenerator<'a>,
    is_equation_array: bool,
    num: Option<u16>,
    c: usize,
)
    requires
        column_count(old(col_gen).kind()) + 2 <= usize::MAX,
    ensures
        final(col_gen).kind() == old(col_gen).kind(),
        final(s)@ == old(s)@ + row_break_text(old(col_gen).kind(), is_equation_array, num, c as nat),
        final(col_gen).column_index() == next_mtd(old(col_gen).kind(), 0, child(c as nat)).1,
{
    let c2 = child_indent(c);
    let c3 = child_indent(c2);
    new_line_and_indent(s, c2);
    s.push_str("</mtd>");
    let ghost s1 = s@;
    if is_equation_array {
        let _ = write_equation_num(s, c2, c3, num);
    }
    assert(s@ =~= s1 + (if is_equation_array {
        equation_num_cell(c2 as nat, c3 as nat, num)
    } else {
        Seq::empty()
    }));
    new_line_and_indent(s, c);
    s.push_str("</mtr>");
    new_line_and_indent(s, c);
    s.push_str("<mtr>");
    col_gen.reset_columns();
    let ghost s2 = s@;
    if is_equation_array {
        new_line_and_indent(s, c2);
        s.push_str("<mtd style=\"width: 50%\"></mtd>");
    }
    assert(s@ =~= s2 + dummy_cell(is_equation_array, c2 as nat));
    col_gen.write_next_mtd(s, c2);
    assert(final(s)@ =~= old(s)@ + row_break_text(old(col_gen).kind(), is_equation_array, num, c as nat));
}

/// Opens a table's first row and its first cell.
fn write_table_head<'a>(s: &mut String, col_gen: &mut ColumnGenerator<'a>, is_equation_array: bool, c: usize)
    requires
        column_count(old(col_gen).kind()) + 2 <= usize::MAX,
    ensures
        final(col_gen).kind() == old(col_gen).kind(),
        final(s)@ == old(s)@ + table_head_text(old(col_gen).kind(), is_equation_array, c as nat),
        final(col_gen).column_index() == next_mtd(old(col_gen).kind(), 0, child(c as nat)).1,
{
    let c2 = child_indent(c);
    col_gen.reset_columns();
    new_line_and_indent(s, c);
    s.push_str("<mtr>");
    let ghost s1 = s@;
    if is_equation_array {
        new_line_and_indent(s, c2);
        s.push_str("<mtd style=\"width: 50%\"></mtd>");
    }
    assert(s@ =~= s1 + dummy_cell(is_equation_array, c2 as nat));
    col_gen.write_next_mtd(s, c2);
    assert(final(s)@ =~= old(s)@ + table_head_text(old(col_gen).kind(), is_equation_array, c as nat));
}

/// Closes a table's last cell and row (with its equation number in an
/// equation array) and the table.
fn write_table_tail(s: &mut String, is_equation_array: bool, last_equation_num: Option<u16>, b: usize)
    ensures
        final(s)@ == old(s)@ + table_tail_text(is_equation_array, last_equation_num, b as nat),
{
    let c = child_indent(b);
    let c2 = child_indent(c);
    let c3 = child_indent(c2);
    new_line_and_indent(s, c2);
    s.push_str("</mtd>");
    let ghost s3 = s@;
    if is_equation_array {
        let _ = write_equation_num(s, c2, c3, last_equation_num);
    }
    assert(s@ =~= s3 + (if is_equation_array {
        equation_num_cell(c2 as nat, c3 as nat, last_equation_num)
    } else {
        Seq::empty()
    }));
    new_line_and_indent(s, c);
    s.push_str("</mtr>");
    new_line_and_indent(s, b);
    s.push_str("</mtable>");
    assert(final(s)@ =~= old(s)@ + table_tail_text(is_equation_array, last_equation_num, b as nat));
}

/// Writes the rows of a table and its closing tag.
fn write_table_rows<'a>(
    s: &mut String,
    b: usize,
    content: &'a [&'a Node<'a>],
    col_gen: ColumnGenerator<'a>,
    is_equation_array: bool,
    last_equation_num: Option<u16>,
    fuel: usize,
)
    requires
        content@.len() + column_count(col_gen.kind()) + 3 <= usize::MAX,
        forall|i: int| 0 <= i < content@.len() ==> entry_ok(*#[trigger] content@[i], fuel as nat),
    ensures
        final(s)@ == old(s)@ + table_mathml(
            content@,
            col_gen.kind(),
            is_equation_array,
            last_equation_num,
            b as nat,
            fuel as nat,
        ),
    decreases fuel, 3nat,
{
    let mut col_gen = col_gen;
    let ghost kind = col_gen.kind();
    let ghost len = column_count(kind);
    let ghost ns = content@;
    let c = child_indent(b);
    let c2 = child_indent(c);
    let c3 = child_indent(c2);
    write_table_head(s, &mut col_gen, is_equation_array, c);
    let ghost head = s@;
    proof {
        lemma_next_mtd_index_bound(kind, 0, c2 as nat);
        lemma_entries_start(ns, kind, is_equation_array, c as nat, fuel as nat);
    }
    let mut i: usize = 0;
    while i < content.len()
        invariant
            i <= ns.len(),
            ns == content@,
            kind == col_gen.kind(),
            len == column_count(kind),
            ns.len() + len + 3 <= usize::MAX,
            forall|j: int| 0 <= j < ns.len() ==> entry_ok(*#[trigger] ns[j], fuel as nat),
            c == child(b as nat),
            c2 == child(c as nat),
            c3 == child(c2 as nat),
            s@ == head + entries_mathml(ns, i as nat, kind, is_equation_array, c as nat, fuel as nat).0,
            col_gen.column_index() == entries_mathml(ns, i as nat, kind, is_equation_array, c as nat, fuel as nat).1,
            col_gen.column_index() <= len + i + 1,
        decreases ns.len() - i,
    {
        let node = content[i];
        let ghost prev = entries_mathml(ns, i as nat, kind, is_equation_array, c as nat, fuel as nat);
        proof {
            lemma_entries_step(ns, i as nat, kind, is_equation_array, c as nat, fuel as nat);
        }
        match node {
            Node::ColumnSeparator => {
                proof {
                    lemma_next_mtd_index_bound(kind, prev.1, c2 as nat);
                }
                write_cell_break(s, &mut col_gen, c2);
            },
            Node::RowSeparator(num) => {
                proof {
                    lemma_next_mtd_index_bound(kind, 0, c2 as nat);
                }
                write_row_break(s, &mut col_gen, is_equation_array, *num, c);
            },
            _ => {
                proof {
                    lemma_entry_emittable(*ns[i as int], fuel as nat);
                }
                node.write_fuel(s, c3, fuel);
            },
        }
        i = i + 1;
        assert(s@ =~= head + entries_mathml(ns, i as nat, kind, is_equation_array, c as nat, fuel as nat).0);
    }
    write_table_tail(s, is_equation_array, last_equation_num, b);
    proof {
        lemma_table_parts(ns, kind, is_equation_array, last_equation_num, b as nat, fuel as nat);
    }
    assert(final(s)@ =~= old(s)@ + table_mathml(
        content@,
        kind,
        is_equation_array,
        last_equation_num,
        b as nat,
        fuel as nat,
    ));
}

} // verus!
