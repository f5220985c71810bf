//! The syntax tree of a formula and how it is written as indented MathML.
use vstd::prelude::*;

use super::attribute::{Accent, Align, DisplayStyle, LineThickness, MathVariant};
use super::display::Display;
use super::ops::Op;

use crate::text::{begins_in_order, begins_in_order3, lemma_begins_in_order, lemma_begins_in_order3};

verus! {

/// The decimal text of a length in `em`, and whether the number it stands for
/// is finite.
#[derive(Debug, Clone, PartialEq)]
pub struct FloatText {
    pub finite: bool,
    pub text: String,
}

/// AST node
#[derive(Debug, PartialEq)]
pub enum Node {
    Number(String),
    SingleLetterIdent(char, Option<MathVariant>),
    Operator(Op),
    OperatorWithSpacing { op: Op, left: FloatText, right: FloatText },
    MultiLetterIdent(String, Option<MathVariant>),
    Space(FloatText),
    Subscript(Box<Node>, Box<Node>),
    Superscript(Box<Node>, Box<Node>),
    SubSup { target: Box<Node>, sub: Box<Node>, sup: Box<Node> },
    OverOp(Op, Accent, Box<Node>),
    UnderOp(Op, Accent, Box<Node>),
    Overset { over: Box<Node>, target: Box<Node> },
    Underset { under: Box<Node>, target: Box<Node> },
    UnderOver { target: Box<Node>, under: Box<Node>, over: Box<Node> },
    Sqrt(Box<Node>),
    Root(Box<Node>, Box<Node>),
    Frac(Box<Node>, Box<Node>, LineThickness, Option<DisplayStyle>),
    Row(Vec<Node>),
    PseudoRow(Vec<Node>),
    Fenced { open: Op, close: Op, content: Box<Node> },
    StretchedOp(bool, Op),
    Paren(Op),
    SizedParen { size: &'static str, paren: Op },
    Text(String),
    Table(Vec<Node>, Align),
    ColumnSeparator,
    RowSeparator,
    Slashed(Box<Node>),
    Undefined(String),
}

/// The text of `{:?}` applied to a string: the string in double quotes, with
/// the characters that need it escaped.
pub uninterp spec fn str_debug_text(s: Seq<char>) -> Seq<char>;

/// `format!("{:?}", s)` for a string slice.
#[verifier::external_body]
fn debug_str(s: &str) -> (r: String)
    ensures
        r@ == str_debug_text(s@),
{
    format!("{:?}", s)
}

/// One level of indentation.
pub const INDENT: usize = 4;

/// `n` spaces.
pub open spec fn pad(n: nat) -> Seq<char> {
    Seq::new(n, |i: int| ' ')
}

/// The indentation of the children of a node indented by `b`.
pub open spec fn child_indent(b: nat) -> nat {
    if b + 4 > usize::MAX {
        usize::MAX as nat
    } else {
        b + 4
    }
}

/// The text of an optional `mathvariant` attribute.
pub open spec fn variant_text(var: Option<MathVariant>) -> Seq<char> {
    match var {
        Some(_) => " mathvariant=\"normal\""@,
        None => Seq::empty(),
    }
}

/// The text of a boolean.
pub open spec fn bool_text(b: bool) -> Seq<char> {
    if b {
        "true"@
    } else {
        "false"@
    }
}

/// The text of an `accent` value.
pub open spec fn accent_text(a: Accent) -> Seq<char> {
    match a {
        Accent::True => "true"@,
        Accent::False => "false"@,
    }
}

/// The `linethickness` attribute of a fraction.
pub open spec fn line_thickness_text(lt: LineThickness) -> Seq<char> {
    match lt {
        LineThickness::Thin => " linethickness=\"thin\""@,
        LineThickness::Medium => Seq::empty(),
        LineThickness::Thick => " linethickness=\"medium\""@,
        LineThickness::Length(l) => " linethickness=\""@ + crate::mathml_renderer::itoa::decimal_chars(l as nat) + "\""@,
    }
}

/// The `displaystyle` attribute of a fraction.
pub open spec fn display_style_text(s: DisplayStyle) -> Seq<char> {
    match s {
        DisplayStyle::True => " displaystyle=\"true\""@,
        DisplayStyle::False => " displaystyle=\"false\""@,
    }
}

/// The opening tag of the odd columns of a table.
pub open spec fn odd_column(align: Align) -> Seq<char> {
    match align {
        Align::Center => "<mtd>"@,
        Align::Left => "<mtd style=\"text-align: left; padding-right: 0\">"@,
        Align::Alternating => "<mtd style=\"text-align: right; padding-right: 0\">"@,
    }
}

/// The opening tag of the even columns of a table.
pub open spec fn even_column(align: Align) -> Seq<char> {
    match align {
        Align::Center => "<mtd>"@,
        Align::Left => "<mtd style=\"text-align: left; padding-right: 0; padding-left: 1em\">"@,
        Align::Alternating => "<mtd style=\"text-align: left; padding-left: 0\">"@,
    }
}

/// Whether the column that is open after the table entries `ns` is an even one
/// (columns count from one, and a row separator starts again at column one).
pub open spec fn column_is_even_after(ns: Seq<Node>) -> bool
    decreases ns.len(),
{
    if ns.len() == 0 {
        false
    } else {
        match ns.last() {
            Node::ColumnSeparator => !column_is_even_after(ns.drop_last()),
            Node::RowSeparator => false,
            _ => column_is_even_after(ns.drop_last()),
        }
    }
}

/// The text of the `{:?}` rendering of the nodes that are written as parse errors.
pub open spec fn debug_text(n: Node) -> Seq<char> {
    match n {
        Node::ColumnSeparator => "ColumnSeparator"@,
        Node::RowSeparator => "RowSeparator"@,
        Node::Undefined(s) => "Undefined("@ + str_debug_text(s@) + ")"@,
        _ => Seq::empty(),
    }
}

/// The MathML text of `n`, each line indented by `b` spaces and ended by a line
/// break; the children are indented four more.
pub open spec fn node_text(n: Node, b: nat) -> Seq<char>
    decreases n,
{
    let i = child_indent(b);
    match n {
        Node::Number(number) => pad(b) + "<mn>"@ + number@ + "</mn>\n"@,
        Node::SingleLetterIdent(letter, var) => pad(b) + "<mi"@ + variant_text(var) + ">"@ + seq![letter]
            + "</mi>\n"@,
        Node::Operator(op) => pad(b) + "<mo>"@ + seq![op.0] + "</mo>\n"@,
        Node::OperatorWithSpacing { op, left, right } => pad(b) + (if left.finite && right.finite {
            "<mo lspace=\""@ + left.text@ + "em\" rspace=\""@ + right.text@ + "em\">"@
        } else if left.finite {
            "<mo lspace=\""@ + left.text@ + "em\">"@
        } else if right.finite {
            "<mo rspace=\""@ + right.text@ + "em\">"@
        } else {
            "<mo>"@
        }) + seq![op.0] + "</mo>\n"@,
        Node::MultiLetterIdent(letters, var) => pad(b) + "<mi"@ + variant_text(var) + ">"@ + letters@
            + "</mi>\n"@,
        Node::Space(space) => pad(b) + "<mspace width=\""@ + space.text@ + "em\"/>\n"@,
        Node::Subscript(base, sub) => pad(b) + "<msub>\n"@ + node_text(*base, i) + node_text(*sub, i)
            + pad(b) + "</msub>\n"@,
        Node::Superscript(base, sup) => pad(b) + "<msup>\n"@ + node_text(*base, i) + node_text(*sup, i)
            + pad(b) + "</msup>\n"@,
        Node::SubSup { target, sub, sup } => pad(b) + "<msubsup>\n"@ + node_text(*target, i)
            + node_text(*sub, i) + node_text(*sup, i) + pad(b) + "</msubsup>\n"@,
        Node::OverOp(op, acc, target) => pad(b) + "<mover>\n"@ + node_text(*target, i) + pad(i)
            + "<mo accent=\""@ + accent_text(acc) + "\">"@ + seq![op.0] + "</mo>\n"@ + pad(b)
            + "</mover>\n"@,
        Node::UnderOp(op, acc, target) => pad(b) + "<munder>\n"@ + node_text(*target, i) + pad(i)
            + "<mo accent=\""@ + accent_text(acc) + "\">"@ + seq![op.0] + "</mo>\n"@ + pad(b)
            + "</munder>\n"@,
        Node::Overset { over, target } => pad(b) + "<mover>\n"@ + node_text(*target, i) + node_text(
            *over,
            i,
        ) + pad(b) + "</mover>\n"@,
        Node::Underset { under, target } => pad(b) + "<munder>\n"@ + node_text(*target, i)
            + node_text(*under, i) + pad(b) + "</munder>\n"@,
        Node::UnderOver { target, under, over } => pad(b) + "<munderover>\n"@ + node_text(*target, i)
            + node_text(*under, i) + node_text(*over, i) + pad(b) + "</munderover>\n"@,
        Node::Sqrt(content) => pad(b) + "<msqrt>\n"@ + node_text(*content, i) + pad(b) + "</msqrt>\n"@,
        Node::Root(degree, content) => pad(b) + "<mroot>\n"@ + node_text(*content, i) + node_text(
            *degree,
            i,
        ) + pad(b) + "</mroot>\n"@,
        Node::Frac(num, denom, lt, style) => pad(b) + "<mfrac"@ + line_thickness_text(lt) + (match style {
            Some(s) => display_style_text(s),
            None => Seq::empty(),
        }) + ">\n"@ + node_text(*num, i) + node_text(*denom, i) + pad(b) + "</mfrac>\n"@,
        Node::Row(nodes) => pad(b) + "<mrow>\n"@ + nodes_text(nodes@, i) + pad(b) + "</mrow>\n"@,
        Node::PseudoRow(nodes) => nodes_text(nodes@, b),
        Node::Fenced { open, close, content } => pad(b) + "<mrow>\n"@ + pad(i)
            + "<mo stretchy=\"true\" form=\"prefix\">"@ + seq![open.0] + "</mo>\n"@ + node_text(
            *content,
            i,
        ) + pad(i) + "<mo stretchy=\"true\" form=\"postfix\">"@ + seq![close.0] + "</mo>\n"@ + pad(b)
            + "</mrow>\n"@,
        Node::StretchedOp(stretchy, op) => pad(b) + "<mo stretchy=\""@ + bool_text(stretchy) + "\">"@
            + seq![op.0] + "</mo>\n"@,
        Node::Paren(op) => pad(b) + "<mo stretchy=\"false\">"@ + seq![op.0] + "</mo>\n"@,
        Node::SizedParen { size, paren } => pad(b) + "<mrow><mo maxsize=\""@ + size@ + "\" minsize=\""@
            + size@ + "\">"@ + seq![paren.0] + "</mo></mrow>\n"@,
        Node::Slashed(node) => match *node {
            Node::SingleLetterIdent(x, var) => "<mi"@ + variant_text(var) + ">"@ + seq![x]
                + "&#x0338;</mi>\n"@,
            Node::Operator(x) => "<mo>"@ + seq![x.0] + "&#x0338;</mo>\n"@,
            inner => node_text(inner, 0),
        },
        Node::Table(content, align) => {
            let i2 = child_indent(i);
            pad(b) + "<mtable>\n"@ + pad(i) + "<mtr>\n"@ + pad(i2) + odd_column(align) + "\n"@
                + table_text(content@, align, i, i2, child_indent(i2)) + pad(i2) + "</mtd>\n"@ + pad(i)
                + "</mtr>\n"@ + pad(b) + "</mtable>\n"@
        },
        Node::Text(text) => pad(b) + "<mtext>"@ + text@ + "</mtext>\n"@,
        _ => pad(b) + "<merror><mtext>Parse error: "@ + debug_text(n) + "</mtext></merror>\n"@,
    }
}

/// The text of the nodes `ns`, one after the other, each indented by `b`.
pub open spec fn nodes_text(ns: Seq<Node>, b: nat) -> Seq<char>
    decreases ns,
{
    if ns.len() == 0 {
        Seq::empty()
    } else {
        nodes_text(ns.subrange(0, ns.len() - 1), b) + node_text(ns[ns.len() - 1], b)
    }
}

/// The text of the entries of a table: a column separator closes the cell and
/// opens the next one, a row separator closes the row and opens a new one, and
/// any other node is written as the content of the open cell.
pub open spec fn table_text(ns: Seq<Node>, align: Align, i: nat, i2: nat, i3: nat) -> Seq<char>
    decreases ns,
{
    if ns.len() == 0 {
        Seq::empty()
    } else {
        let prefix = ns.subrange(0, ns.len() - 1);
        table_text(prefix, align, i, i2, i3) + match ns[ns.len() - 1] {
            Node::ColumnSeparator => pad(i2) + "</mtd>\n"@ + pad(i2) + (if column_is_even_after(prefix) {
                odd_column(align)
            } else {
                even_column(align)
            }) + "\n"@,
            Node::RowSeparator => pad(i2) + "</mtd>\n"@ + pad(i) + "</mtr>\n"@ + pad(i) + "<mtr>\n"@
                + pad(i2) + odd_column(align) + "\n"@,
            other => node_text(other, i3),
        }
    }
}

} // verus!

verus! {

/// Appends `n` spaces.
fn push_pad(f: &mut String, n: usize)
    ensures
        final(f)@ == old(f)@ + pad(n as nat),
{
    let ghost start = f@;
    let mut k: usize = 0;
    while k < n
        invariant
            k <= n,
            f@ == start + pad(k as nat),
        decreases n - k,
    {
        f.push(' ');
        k = k + 1;
        assert(f@ =~= start + pad(k as nat));
    }
}

fn push_variant(f: &mut String, var: Option<MathVariant>)
    ensures
        final(f)@ == old(f)@ + variant_text(var),
{
    match var {
        Some(v) => {
            let t = v.to_string();
            f.push_str(t.as_str());
        },
        None => {
            assert(old(f)@ + Seq::<char>::empty() =~= old(f)@);
        },
    }
}

fn bool_str(b: bool) -> (r: &'static str)
    ensures
        r@ == bool_text(b),
{
    if b {
        "true"
    } else {
        "false"
    }
}

fn indent_of_children(b: usize) -> (i: usize)
    ensures
        i as nat == child_indent(b as nat),
{
    b.saturating_add(INDENT)
}

/// Writes the nodes `nodes` one after the other, each indented by `b`.
fn write_nodes(nodes: &Vec<Node>, f: &mut String, b: usize)
    ensures
        final(f)@ == old(f)@ + nodes_text(nodes@, b as nat),
    decreases nodes,
{
    let ghost start = f@;
    let n = nodes.len();
    let mut k: usize = 0;
    while k < n
        invariant
            n == nodes@.len(),
            k <= n,
            f@ == start + nodes_text(nodes@.subrange(0, k as int), b as nat),
        decreases n - k,
    {
        proof {
            assert(decreases_to!(nodes => nodes@));
            assert(decreases_to!(nodes@ => nodes@[k as int]));
        }
        nodes[k].write_to(f, b);
        proof {
            let s = nodes@.subrange(0, k + 1);
            assert(s.subrange(0, s.len() - 1) == nodes@.subrange(0, k as int));
            assert(s[s.len() - 1] == nodes@[k as int]);
        }
        k = k + 1;
    }
    assert(nodes@.subrange(0, n as int) == nodes@);
}

/// Writes the entries of a table.
fn write_table_entries(content: &Vec<Node>, align: Align, f: &mut String, i: usize, i2: usize, i3: usize)
    ensures
        final(f)@ == old(f)@ + table_text(content@, align, i as nat, i2 as nat, i3 as nat),
    decreases content,
{
    let (odd_col, even_col) = column_tags(align);
    let ghost start = f@;
    let n = content.len();
    let mut k: usize = 0;
    let mut col_even = false;
    while k < n
        invariant
            n == content@.len(),
            k <= n,
            odd_col@ == odd_column(align),
            even_col@ == even_column(align),
            col_even == column_is_even_after(content@.subrange(0, k as int)),
            f@ == start + table_text(content@.subrange(0, k as int), align, i as nat, i2 as nat, i3 as nat),
        decreases n - k,
    {
        let ghost prefix = content@.subrange(0, k as int);
        let ghost before = f@;
        match &content[k] {
            Node::ColumnSeparator => {
                push_pad(f, i2);
                f.push_str("</mtd>\n");
                col_even = !col_even;
                push_pad(f, i2);
                if col_even {
                    f.push_str(even_col);
                } else {
                    f.push_str(odd_col);
                }
                f.push_str("\n");
            },
            Node::RowSeparator => {
                push_pad(f, i2);
                f.push_str("</mtd>\n");
                push_pad(f, i);
                f.push_str("</mtr>\n");
                push_pad(f, i);
                f.push_str("<mtr>\n");
                push_pad(f, i2);
                f.push_str(odd_col);
                f.push_str("\n");
                col_even = false;
            },
            node => {
                proof {
                    assert(decreases_to!(content => content@));
                    assert(decreases_to!(content@ => content@[k as int]));
                }
                node.write_to(f, i3);
            },
        }
        proof {
            let s = content@.subrange(0, k + 1);
            assert(s.subrange(0, s.len() - 1) == prefix);
            assert(s[s.len() - 1] == content@[k as int]);
            assert(s.drop_last() == prefix);
            assert(s.last() == content@[k as int]);
            assert(f@ =~= start + table_text(s, align, i as nat, i2 as nat, i3 as nat));
        }
        k = k + 1;
    }
    assert(content@.subrange(0, n as int) == content@);
}

fn column_tags(align: Align) -> (r: (&'static str, &'static str))
    ensures
        r.0@ == odd_column(align),
        r.1@ == even_column(align),
{
    match align {
        Align::Center => ("<mtd>", "<mtd>"),
        Align::Left => (
            "<mtd style=\"text-align: left; padding-right: 0\">",
            "<mtd style=\"text-align: left; padding-right: 0; padding-left: 1em\">",
        ),
        Align::Alternating => (
            "<mtd style=\"text-align: right; padding-right: 0\">",
            "<mtd style=\"text-align: left; padding-left: 0\">",
        ),
    }
}

impl Node {
    /// The MathML text of the node.
    pub fn to_string(&self) -> (r: String)
        ensures
            r@ == node_text(*self, 0),
    {
        let mut f = String::new();
        self.write_to(&mut f, 0);
        f
    }

    /// Appends the MathML text of the node, each line indented by `b` spaces.
    pub fn write_to(&self, f: &mut String, b: usize)
        ensures
            final(f)@ == old(f)@ + node_text(*self, b as nat),
        decreases self, 1nat,
    {
        match self {
            Node::Number(..) | Node::SingleLetterIdent(..) | Node::Operator(..) | Node::OperatorWithSpacing { .. } | Node::MultiLetterIdent(..) | Node::Space(..) | Node::StretchedOp(..) | Node::Paren(..) | Node::SizedParen { .. } | Node::Text(..) | Node::ColumnSeparator | Node::RowSeparator | Node::Undefined(..) => self.write_leaf(f, b),
            Node::Subscript(..) | Node::Superscript(..) | Node::SubSup { .. } | Node::Overset { .. } | Node::Underset { .. } | Node::UnderOver { .. } | Node::Sqrt(..) | Node::Root(..) => self.write_scripts(f, b),
            Node::OverOp(..) | Node::UnderOp(..) => self.write_accents(f, b),
            Node::Frac(..) | Node::Fenced { .. } => self.write_fractions(f, b),
            Node::Row(..) | Node::PseudoRow(..) | Node::Table(..) | Node::Slashed(..) => self.write_rows(f, b),
        }
    }

    #[verifier::spinoff_prover]
    fn write_leaf(&self, f: &mut String, b: usize)
        requires
            *self is Number || *self is SingleLetterIdent || *self is Operator || *self is OperatorWithSpacing || *self is MultiLetterIdent || *self is Space || *self is StretchedOp || *self is Paren || *self is SizedParen || *self is Text || *self is ColumnSeparator || *self is RowSeparator || *self is Undefined,
        ensures
            final(f)@ == old(f)@ + node_text(*self, b as nat),
        decreases self, 0nat,
    {
        let ghost start = f@;
        
        match self {
            Node::Number(number) => {
                push_pad(f, b);
                f.push_str("<mn>");
                f.push_str(number.as_str());
                f.push_str("</mn>\n");
                assert(f@ =~= start + node_text(*self, b as nat));
            },
            Node::SingleLetterIdent(letter, var) => {
                push_pad(f, b);
                f.push_str("<mi");
                push_variant(f, *var);
                f.push_str(">");
                f.push(*letter);
                f.push_str("</mi>\n");
                assert(f@ =~= start + node_text(*self, b as nat));
            },
            Node::Operator(op) => {
                push_pad(f, b);
                f.push_str("<mo>");
                f.push(op.char());
                f.push_str("</mo>\n");
                assert(f@ =~= start + node_text(*self, b as nat));
            },
            Node::OperatorWithSpacing { op, left, right } => {
                push_pad(f, b);
                if left.finite && right.finite {
                    f.push_str("<mo lspace=\"");
                    f.push_str(left.text.as_str());
                    f.push_str("em\" rspace=\"");
                    f.push_str(right.text.as_str());
                    f.push_str("em\">");
                } else if left.finite {
                    f.push_str("<mo lspace=\"");
                    f.push_str(left.text.as_str());
                    f.push_str("em\">");
                } else if right.finite {
                    f.push_str("<mo rspace=\"");
                    f.push_str(right.text.as_str());
                    f.push_str("em\">");
                } else {
                    f.push_str("<mo>");
                }
                f.push(op.char());
                f.push_str("</mo>\n");
                assert(f@ =~= start + node_text(*self, b as nat));
            },
            Node::MultiLetterIdent(letters, var) => {
                push_pad(f, b);
                f.push_str("<mi");
                push_variant(f, *var);
                f.push_str(">");
                f.push_str(letters.as_str());
                f.push_str("</mi>\n");
                assert(f@ =~= start + node_text(*self, b as nat));
            },
            Node::Space(space) => {
                push_pad(f, b);
                f.push_str("<mspace width=\"");
                f.push_str(space.text.as_str());
                f.push_str("em\"/>\n");
                assert(f@ =~= start + node_text(*self, b as nat));
            },
            Node::StretchedOp(stretchy, op) => {
                push_pad(f, b);
                f.push_str("<mo stretchy=\"");
                f.push_str(bool_str(*stretchy));
                f.push_str("\">");
                f.push(op.char());
                f.push_str("</mo>\n");
                assert(f@ =~= start + node_text(*self, b as nat));
            },
            Node::Paren(op) => {
                push_pad(f, b);
                f.push_str("<mo stretchy=\"false\">");
                f.push(op.char());
                f.push_str("</mo>\n");
                assert(f@ =~= start + node_text(*self, b as nat));
            },
            Node::SizedParen { size, paren } => {
                push_pad(f, b);
                f.push_str("<mrow><mo maxsize=\"");
                f.push_str(size);
                f.push_str("\" minsize=\"");
                f.push_str(size);
                f.push_str("\">");
                f.push(paren.0);
                f.push_str("</mo></mrow>\n");
                assert(f@ =~= start + node_text(*self, b as nat));
            },
            Node::Text(text) => {
                push_pad(f, b);
                f.push_str("<mtext>");
                f.push_str(text.as_str());
                f.push_str("</mtext>\n");
                assert(f@ =~= start + node_text(*self, b as nat));
            },
            Node::ColumnSeparator => {
                push_pad(f, b);
                f.push_str("<merror><mtext>Parse error: ");
                f.push_str("ColumnSeparator");
                f.push_str("</mtext></merror>\n");
                assert(f@ =~= start + node_text(*self, b as nat));
            },
            Node::RowSeparator => {
                push_pad(f, b);
                f.push_str("<merror><mtext>Parse error: ");
                f.push_str("RowSeparator");
                f.push_str("</mtext></merror>\n");
                assert(f@ =~= start + node_text(*self, b as nat));
            },
            Node::Undefined(text) => {
                push_pad(f, b);
                f.push_str("<merror><mtext>Parse error: ");
                f.push_str("Undefined(");
                let d = debug_str(text.as_str());
                f.push_str(d.as_str());
                f.push_str(")");
                f.push_str("</mtext></merror>\n");
                assert(f@ =~= start + node_text(*self, b as nat));
            },
            _ => {},
        }
    }

    #[verifier::spinoff_prover]
    fn write_scripts(&self, f: &mut String, b: usize)
        requires
            *self is Subscript || *self is Superscript || *self is SubSup || *self is Overset || *self is Underset || *self is UnderOver || *self is Sqrt || *self is Root,
        ensures
            final(f)@ == old(f)@ + node_text(*self, b as nat),
        decreases self, 0nat,
    {
        let ghost start = f@;
        let i = indent_of_children(b);
        match self {
            Node::Subscript(base, sub) => {
                push_pad(f, b);
                f.push_str("<msub>\n");
                base.write_to(f, i);
                sub.write_to(f, i);
                push_pad(f, b);
                f.push_str("</msub>\n");
                assert(f@ =~= start + node_text(*self, b as nat));
            },
            Node::Superscript(base, sup) => {
                push_pad(f, b);
                f.push_str("<msup>\n");
                base.write_to(f, i);
                sup.write_to(f, i);
                push_pad(f, b);
                f.push_str("</msup>\n");
                assert(f@ =~= start + node_text(*self, b as nat));
            },
            Node::SubSup { target, sub, sup } => {
                push_pad(f, b);
                f.push_str("<msubsup>\n");
                target.write_to(f, i);
                sub.write_to(f, i);
                sup.write_to(f, i);
                push_pad(f, b);
                f.push_str("</msubsup>\n");
                assert(f@ =~= start + node_text(*self, b as nat));
            },
            Node::Overset { over, target } => {
                push_pad(f, b);
                f.push_str("<mover>\n");
                target.write_to(f, i);
                over.write_to(f, i);
                push_pad(f, b);
                f.push_str("</mover>\n");
                assert(f@ =~= start + node_text(*self, b as nat));
            },
            Node::Underset { under, target } => {
                push_pad(f, b);
                f.push_str("<munder>\n");
                target.write_to(f, i);
                under.write_to(f, i);
                push_pad(f, b);
                f.push_str("</munder>\n");
                assert(f@ =~= start + node_text(*self, b as nat));
            },
            Node::UnderOver { target, under, over } => {
                push_pad(f, b);
                f.push_str("<munderover>\n");
                target.write_to(f, i);
                under.write_to(f, i);
                over.write_to(f, i);
                push_pad(f, b);
                f.push_str("</munderover>\n");
                assert(f@ =~= start + node_text(*self, b as nat));
            },
            Node::Sqrt(content) => {
                push_pad(f, b);
                f.push_str("<msqrt>\n");
                content.write_to(f, i);
                push_pad(f, b);
                f.push_str("</msqrt>\n");
                assert(f@ =~= start + node_text(*self, b as nat));
            },
            Node::Root(degree, content) => {
                push_pad(f, b);
                f.push_str("<mroot>\n");
                content.write_to(f, i);
                degree.write_to(f, i);
                push_pad(f, b);
                f.push_str("</mroot>\n");
                assert(f@ =~= start + node_text(*self, b as nat));
            },
            _ => {},
        }
    }

    #[verifier::spinoff_prover]
    fn write_accents(&self, f: &mut String, b: usize)
        requires
            *self is OverOp || *self is UnderOp,
        ensures
            final(f)@ == old(f)@ + node_text(*self, b as nat),
        decreases self, 0nat,
    {
        let ghost start = f@;
        let i = indent_of_children(b);
        match self {
            Node::OverOp(op, acc, target) => {
                push_pad(f, b);
                f.push_str("<mover>\n");
                target.write_to(f, i);
                push_pad(f, i);
                f.push_str("<mo accent=\"");
                let a = acc.to_string();
                f.push_str(a.as_str());
                f.push_str("\">");
                f.push(op.char());
                f.push_str("</mo>\n");
                push_pad(f, b);
                f.push_str("</mover>\n");
                assert(f@ =~= start + node_text(*self, b as nat));
            },
            Node::UnderOp(op, acc, target) => {
                push_pad(f, b);
                f.push_str("<munder>\n");
                target.write_to(f, i);
                push_pad(f, i);
                f.push_str("<mo accent=\"");
                let a = acc.to_string();
                f.push_str(a.as_str());
                f.push_str("\">");
                f.push(op.char());
                f.push_str("</mo>\n");
                push_pad(f, b);
                f.push_str("</munder>\n");
                assert(f@ =~= start + node_text(*self, b as nat));
            },
            _ => {},
        }
    }


    #[verifier::spinoff_prover]
    fn write_fractions(&self, f: &mut String, b: usize)
        requires
            *self is Frac || *self is Fenced,
        ensures
            final(f)@ == old(f)@ + node_text(*self, b as nat),
        decreases self, 0nat,
    {
        let ghost start = f@;
        let i = indent_of_children(b);
        match self {
            Node::Frac(num, denom, lt, style) => {
                push_pad(f, b);
                f.push_str("<mfrac");
                let t = lt.to_string();
                f.push_str(t.as_str());
                if let Some(style) = style {
                    let st = style.to_string();
                    f.push_str(st.as_str());
                }
                f.push_str(">\n");
                num.write_to(f, i);
                denom.write_to(f, i);
                push_pad(f, b);
                f.push_str("</mfrac>\n");
                assert(f@ =~= start + node_text(*self, b as nat));
            },
            Node::Fenced { open, close, content } => {
                push_pad(f, b);
                f.push_str("<mrow>\n");
                push_pad(f, i);
                f.push_str("<mo stretchy=\"true\" form=\"prefix\">");
                f.push(open.0);
                f.push_str("</mo>\n");
                content.write_to(f, i);
                push_pad(f, i);
                f.push_str("<mo stretchy=\"true\" form=\"postfix\">");
                f.push(close.0);
                f.push_str("</mo>\n");
                push_pad(f, b);
                f.push_str("</mrow>\n");
                assert(f@ =~= start + node_text(*self, b as nat));
            },
            _ => {},
        }
    }

    #[verifier::spinoff_prover]
    fn write_rows(&self, f: &mut String, b: usize)
        requires
            *self is Row || *self is PseudoRow || *self is Table || *self is Slashed,
        ensures
            final(f)@ == old(f)@ + node_text(*self, b as nat),
        decreases self, 0nat,
    {
        let ghost start = f@;
        let i = indent_of_children(b);
        match self {
            Node::Row(nodes) => {
                push_pad(f, b);
                f.push_str("<mrow>\n");
                write_nodes(nodes, f, i);
                push_pad(f, b);
                f.push_str("</mrow>\n");
                assert(f@ =~= start + node_text(*self, b as nat));
            },
            Node::PseudoRow(nodes) => {
                write_nodes(nodes, f, b);
                assert(f@ =~= start + node_text(*self, b as nat));
            },
            Node::Table(content, align) => {
                let i2 = indent_of_children(i);
                let i3 = indent_of_children(i2);
                let (odd_col, _) = column_tags(*align);
                push_pad(f, b);
                f.push_str("<mtable>\n");
                push_pad(f, i);
                f.push_str("<mtr>\n");
                push_pad(f, i2);
                f.push_str(odd_col);
                f.push_str("\n");
                write_table_entries(content, *align, f, i, i2, i3);
                push_pad(f, i2);
                f.push_str("</mtd>\n");
                push_pad(f, i);
                f.push_str("</mtr>\n");
                push_pad(f, b);
                f.push_str("</mtable>\n");
                assert(f@ =~= start + node_text(*self, b as nat));
            },
            Node::Slashed(node) => {
                match &**node {
                    Node::SingleLetterIdent(x, var) => {
                        f.push_str("<mi");
                        push_variant(f, *var);
                        f.push_str(">");
                        f.push(*x);
                        f.push_str("&#x0338;</mi>\n");
                    },
                    Node::Operator(x) => {
                        f.push_str("<mo>");
                        f.push(x.char());
                        f.push_str("&#x0338;</mo>\n");
                    },
                    n => {
                        n.write_to(f, 0);
                    },
                }
                assert(f@ =~= start + node_text(*self, b as nat));
            },
            _ => {},
        }
    }
}

/// A fenced node writes its opening delimiter as a prefix, then its content,
/// then its closing delimiter as a postfix.
pub proof fn lemma_fence_order(open: Op, close: Op, content: Node, b: nat)
    ensures
        ({
            let i = child_indent(b);
            begins_in_order3(
                node_text(Node::Fenced { open, close, content: Box::new(content) }, b),
                pad(b) + "<mrow>\n"@ + pad(i) + "<mo stretchy=\"true\" form=\"prefix\">"@,
                seq![open.0] + "</mo>\n"@,
                node_text(content, i),
                pad(i) + "<mo stretchy=\"true\" form=\"postfix\">"@ + seq![close.0],
            )
        }),
{
    let i = child_indent(b);
    let t = node_text(Node::Fenced { open, close, content: Box::new(content) }, b);
    let head = pad(b) + "<mrow>\n"@ + pad(i) + "<mo stretchy=\"true\" form=\"prefix\">"@;
    let o = seq![open.0] + "</mo>\n"@;
    let x = node_text(content, i);
    let cl = pad(i) + "<mo stretchy=\"true\" form=\"postfix\">"@ + seq![close.0];
    let rest = "</mo>\n"@ + pad(b) + "</mrow>\n"@;
    lemma_begins_in_order3(head, o, x, cl, rest);
    assert(t =~= head + o + x + cl + rest);
}


/// Every node with a base writes the base first and its scripts after it: a
/// subscript, superscript or both (`x_1`, `x^2`, `x_1^2`), a symbol over or
/// under a base, limits under and over a base, and a root, whose content
/// comes before its degree. A fraction writes its numerator before its
/// denominator.
pub proof fn lemma_base_before_scripts(n: Node, b: nat)
    ensures
        n matches Node::Subscript(base, sub) ==> begins_in_order(
            node_text(n, b),
            pad(b) + "<msub>\n"@,
            node_text(*base, child_indent(b)),
            node_text(*sub, child_indent(b)),
        ),
        n matches Node::Superscript(base, sup) ==> begins_in_order(
            node_text(n, b),
            pad(b) + "<msup>\n"@,
            node_text(*base, child_indent(b)),
            node_text(*sup, child_indent(b)),
        ),
        n matches Node::SubSup { target, sub, sup } ==> begins_in_order3(
            node_text(n, b),
            pad(b) + "<msubsup>\n"@,
            node_text(*target, child_indent(b)),
            node_text(*sub, child_indent(b)),
            node_text(*sup, child_indent(b)),
        ),
        n matches Node::Overset { over, target } ==> begins_in_order(
            node_text(n, b),
            pad(b) + "<mover>\n"@,
            node_text(*target, child_indent(b)),
            node_text(*over, child_indent(b)),
        ),
        n matches Node::Underset { under, target } ==> begins_in_order(
            node_text(n, b),
            pad(b) + "<munder>\n"@,
            node_text(*target, child_indent(b)),
            node_text(*under, child_indent(b)),
        ),
        n matches Node::UnderOver { target, under, over } ==> begins_in_order3(
            node_text(n, b),
            pad(b) + "<munderover>\n"@,
            node_text(*target, child_indent(b)),
            node_text(*under, child_indent(b)),
            node_text(*over, child_indent(b)),
        ),
        n matches Node::Root(degree, content) ==> begins_in_order(
            node_text(n, b),
            pad(b) + "<mroot>\n"@,
            node_text(*content, child_indent(b)),
            node_text(*degree, child_indent(b)),
        ),
        n matches Node::Frac(num, denom, lt, style) ==> begins_in_order(
            node_text(n, b),
            pad(b) + "<mfrac"@ + line_thickness_text(lt) + (match style {
                Some(s) => display_style_text(s),
                None => Seq::empty(),
            }) + ">\n"@,
            node_text(*num, child_indent(b)),
            node_text(*denom, child_indent(b)),
        ),
{
    let i = child_indent(b);
    match n {
        Node::Subscript(base, sub) => {
            lemma_begins_in_order(pad(b) + "<msub>\n"@, node_text(*base, i), node_text(*sub, i), pad(b) + "</msub>\n"@);
            assert(node_text(n, b) =~= pad(b) + "<msub>\n"@ + node_text(*base, i) + node_text(*sub, i) + (pad(b) + "</msub>\n"@));
        },
        Node::Superscript(base, sup) => {
            lemma_begins_in_order(pad(b) + "<msup>\n"@, node_text(*base, i), node_text(*sup, i), pad(b) + "</msup>\n"@);
            assert(node_text(n, b) =~= pad(b) + "<msup>\n"@ + node_text(*base, i) + node_text(*sup, i) + (pad(b) + "</msup>\n"@));
        },
        Node::SubSup { target, sub, sup } => {
            lemma_begins_in_order3(pad(b) + "<msubsup>\n"@, node_text(*target, i), node_text(*sub, i), node_text(*sup, i), pad(b) + "</msubsup>\n"@);
            assert(node_text(n, b) =~= pad(b) + "<msubsup>\n"@ + node_text(*target, i) + node_text(*sub, i) + node_text(*sup, i) + (pad(b) + "</msubsup>\n"@));
        },
        Node::Overset { over, target } => {
            lemma_begins_in_order(pad(b) + "<mover>\n"@, node_text(*target, i), node_text(*over, i), pad(b) + "</mover>\n"@);
            assert(node_text(n, b) =~= pad(b) + "<mover>\n"@ + node_text(*target, i) + node_text(*over, i) + (pad(b) + "</mover>\n"@));
        },
        Node::Underset { under, target } => {
            lemma_begins_in_order(pad(b) + "<munder>\n"@, node_text(*target, i), node_text(*under, i), pad(b) + "</munder>\n"@);
            assert(node_text(n, b) =~= pad(b) + "<munder>\n"@ + node_text(*target, i) + node_text(*under, i) + (pad(b) + "</munder>\n"@));
        },
        Node::UnderOver { target, under, over } => {
            lemma_begins_in_order3(pad(b) + "<munderover>\n"@, node_text(*target, i), node_text(*under, i), node_text(*over, i), pad(b) + "</munderover>\n"@);
            assert(node_text(n, b) =~= pad(b) + "<munderover>\n"@ + node_text(*target, i) + node_text(*under, i) + node_text(*over, i) + (pad(b) + "</munderover>\n"@));
        },
        Node::Root(degree, content) => {
            lemma_begins_in_order(pad(b) + "<mroot>\n"@, node_text(*content, i), node_text(*degree, i), pad(b) + "</mroot>\n"@);
            assert(node_text(n, b) =~= pad(b) + "<mroot>\n"@ + node_text(*content, i) + node_text(*degree, i) + (pad(b) + "</mroot>\n"@));
        },
        Node::Frac(num, denom, lt, style) => {
            let head = pad(b) + "<mfrac"@ + line_thickness_text(lt) + (match style {
                Some(s) => display_style_text(s),
                None => Seq::empty(),
            }) + ">\n"@;
            lemma_begins_in_order(head, node_text(*num, i), node_text(*denom, i), pad(b) + "</mfrac>\n"@);
            assert(node_text(n, b) =~= head + node_text(*num, i) + node_text(*denom, i) + (pad(b) + "</mfrac>\n"@));
        },
        _ => {},
    }
}


/// The `math` element of a formula whose nodes are `nodes`, shown as `display`.
pub open spec fn math_text(nodes: Seq<Node>, display: Display) -> Seq<char> {
    "<math xmlns=\"http://www.w3.org/1998/Math/MathML\" display=\""@ + match display {
        Display::Block => "block"@,
        Display::Inline => "inline"@,
    } + "\">\n"@ + nodes_text(nodes, 0) + "</math>"@
}

/// The `math` element of a formula whose nodes are `nodes`, shown as `display`:
/// the nodes are written one after the other inside it.
pub fn render_math(nodes: &Vec<Node>, display: Display) -> (r: String)
    ensures
        r@ == math_text(nodes@, display),
{
    let mut f = String::new();
    f.push_str("<math xmlns=\"http://www.w3.org/1998/Math/MathML\" display=\"");
    f.push_str(display.as_str());
    f.push_str("\">\n");
    write_nodes(nodes, &mut f, 0);
    f.push_str("</math>");
    f
}

} // verus!
