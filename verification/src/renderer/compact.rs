//! Writing a formula without indentation adds no line break of its own.
use vstd::prelude::*;

use super::ast::{equation_num_cell, stretchy_mo_open};
use super::emit::{
    beginning_line_text, cell_break_text, dummy_cell, entries_mathml, leaf_mathml, mo_open,
    node_mathml, notation_names, row_break_text, row_mathml, row_open, strike_rows, style_text,
    table_head_text, table_mathml, table_tail_text,
};
use super::attribute::{FracAttr, HtmlTextStyle, MathSpacing, Notation, OpAttr, RowAttr, Size, Style};
use super::node::Node;
use super::table::{lemma_next_mtd_one_cell, one_line, AlignmentType, LineType, RIGHT_ALIGN};
use crate::mathml_renderer::fmt::line_and_indent;
use crate::mathml_renderer::itoa::{decimal_chars, digit_char, hex_chars};
use crate::mathml_renderer::attribute::StretchMode;
use crate::mathml_renderer::symbol::Stretchy;

verus! {

/// Text without a line break, joined to text without one, has none.
broadcast proof fn lemma_one_line_add(a: Seq<char>, b: Seq<char>)
    ensures
        #[trigger] one_line(a + b) == (one_line(a) && one_line(b)),
{
    if one_line(a) && one_line(b) {
        assert forall|i: int| 0 <= i < (a + b).len() implies #[trigger] (a + b)[i] != '\n' by {
            if i < a.len() {
                assert((a + b)[i] == a[i]);
            } else {
                assert((a + b)[i] == b[i - a.len()]);
            }
        }
    }
    if one_line(a + b) {
        assert forall|i: int| 0 <= i < a.len() implies #[trigger] a[i] != '\n' by {
            assert((a + b)[i] == a[i]);
        }
        assert forall|i: int| 0 <= i < b.len() implies #[trigger] b[i] != '\n' by {
            assert((a + b)[i + a.len()] == b[i]);
        }
    }
}

proof fn lemma_char_one_line(c: char)
    ensures
        one_line(seq![c]) == (c != '\n'),
{
    assert(seq![c][0] == c);
}

proof fn lemma_empty_one_line()
    ensures
        one_line(Seq::<char>::empty()),
        one_line(line_and_indent(0)),
{
}

proof fn lemma_decimal_one_line(n: nat)
    ensures
        one_line(decimal_chars(n)),
    decreases n,
{
    if n >= 10 {
        lemma_decimal_one_line(n / 10);
        let d = decimal_chars(n / 10);
        let r = decimal_chars(n);
        assert(r == d.push(digit_char(n % 10)));
        assert forall|i: int| 0 <= i < r.len() implies #[trigger] r[i] != '\n' by {
            if i < d.len() {
                assert(r[i] == d[i]);
            }
        }
    }
}

proof fn lemma_hex_one_line(b: u8)
    ensures
        one_line(hex_chars(b)),
{
    let h = hex_chars(b);
    assert forall|i: int| 0 <= i < h.len() implies #[trigger] h[i] != '\n' by {}
}

proof fn lemma_literals_one_line_0()
    ensures
        one_line(" "@),
        one_line(" displaystyle=\"false\""@),
        one_line(" displaystyle=\"false\" scriptlevel=\"0\""@),
        one_line(" displaystyle=\"false\" scriptlevel=\"1\""@),
        one_line(" displaystyle=\"false\" scriptlevel=\"2\""@),
        one_line(" displaystyle=\"true\""@),
        one_line(" displaystyle=\"true\" scriptlevel=\"0\""@),
        one_line(" form=\"prefix\""@),
        one_line(" linethickness=\""@),
        one_line(" lspace=\""@),
        one_line(" movablelimits=\"false\""@),
        one_line(" movablelimits=\"true\""@),
        one_line(" rspace=\""@),
        one_line(" stretchy=\"false\""@),
        one_line(" stretchy=\"true\" symmetric=\"true\""@),
        one_line(" style=\"border-left: 0.05em dashed currentcolor\""@),
        one_line(" style=\"border-left: 0.05em solid currentcolor\""@),
        one_line(" symmetric=\"true\""@),
        one_line("&#x0338;</mi>"@),
        one_line("&#x0338;</mo>"@),
        one_line(")</mtext>"@),
        one_line("0"@),
        one_line("0.1667em"@),
        one_line("0.2222em"@),
        one_line("0.2778em"@),
        one_line("1.2em"@),
        one_line("1.623em"@),
        one_line("2.047em"@),
        one_line("2.470em"@),
        one_line(";"@),
{
    reveal_strlit(" ");
    reveal_strlit(" displaystyle=\"false\"");
    reveal_strlit(" displaystyle=\"false\" scriptlevel=\"0\"");
    reveal_strlit(" displaystyle=\"false\" scriptlevel=\"1\"");
    reveal_strlit(" displaystyle=\"false\" scriptlevel=\"2\"");
    reveal_strlit(" displaystyle=\"true\"");
    reveal_strlit(" displaystyle=\"true\" scriptlevel=\"0\"");
    reveal_strlit(" form=\"prefix\"");
    reveal_strlit(" linethickness=\"");
    reveal_strlit(" lspace=\"");
    reveal_strlit(" movablelimits=\"false\"");
    reveal_strlit(" movablelimits=\"true\"");
    reveal_strlit(" rspace=\"");
    reveal_strlit(" stretchy=\"false\"");
    reveal_strlit(" stretchy=\"true\" symmetric=\"true\"");
    reveal_strlit(" style=\"border-left: 0.05em dashed currentcolor\"");
    reveal_strlit(" style=\"border-left: 0.05em solid currentcolor\"");
    reveal_strlit(" symmetric=\"true\"");
    reveal_strlit("&#x0338;</mi>");
    reveal_strlit("&#x0338;</mo>");
    reveal_strlit(")</mtext>");
    reveal_strlit("0");
    reveal_strlit("0.1667em");
    reveal_strlit("0.2222em");
    reveal_strlit("0.2778em");
    reveal_strlit("1.2em");
    reveal_strlit("1.623em");
    reveal_strlit("2.047em");
    reveal_strlit("2.470em");
    reveal_strlit(";");
}

proof fn lemma_literals_one_line_1()
    ensures
        one_line(";\">"@),
        one_line("</b></mtext>"@),
        one_line("</code></mtext>"@),
        one_line("</em></mtext>"@),
        one_line("</i></mtext>"@),
        one_line("</menclose>"@),
        one_line("</mfrac>"@),
        one_line("</mi>"@),
        one_line("</mi></mpadded>"@),
        one_line("</mmultiscripts>"@),
        one_line("</mn>"@),
        one_line("</mo>"@),
        one_line("</mover>"@),
        one_line("</mroot>"@),
        one_line("</mrow>"@),
        one_line("</msqrt>"@),
        one_line("</msub>"@),
        one_line("</msubsup>"@),
        one_line("</msup>"@),
        one_line("</mtable>"@),
        one_line("</mtd>"@),
        one_line("</mtext>"@),
        one_line("</mtr>"@),
        one_line("</munder>"@),
        one_line("</munderover>"@),
        one_line("</span></mtext>"@),
        one_line("<menclose notation=\""@),
        one_line("<mfrac"@),
        one_line("<mi mathvariant=\"normal\">"@),
        one_line("<mi>"@),
{
    reveal_strlit(";\">");
    reveal_strlit("</b></mtext>");
    reveal_strlit("</code></mtext>");
    reveal_strlit("</em></mtext>");
    reveal_strlit("</i></mtext>");
    reveal_strlit("</menclose>");
    reveal_strlit("</mfrac>");
    reveal_strlit("</mi>");
    reveal_strlit("</mi></mpadded>");
    reveal_strlit("</mmultiscripts>");
    reveal_strlit("</mn>");
    reveal_strlit("</mo>");
    reveal_strlit("</mover>");
    reveal_strlit("</mroot>");
    reveal_strlit("</mrow>");
    reveal_strlit("</msqrt>");
    reveal_strlit("</msub>");
    reveal_strlit("</msubsup>");
    reveal_strlit("</msup>");
    reveal_strlit("</mtable>");
    reveal_strlit("</mtd>");
    reveal_strlit("</mtext>");
    reveal_strlit("</mtr>");
    reveal_strlit("</munder>");
    reveal_strlit("</munderover>");
    reveal_strlit("</span></mtext>");
    reveal_strlit("<menclose notation=\"");
    reveal_strlit("<mfrac");
    reveal_strlit("<mi mathvariant=\"normal\">");
    reveal_strlit("<mi>");
}

proof fn lemma_literals_one_line_2()
    ensures
        one_line("<mmultiscripts>"@),
        one_line("<mn>"@),
        one_line("<mo"@),
        one_line("<mo maxsize=\""@),
        one_line("<mo stretchy=\"false\">"@),
        one_line("<mo stretchy=\"true\">"@),
        one_line("<mo symmetric=\"true\">"@),
        one_line("<mo>"@),
        one_line("<mo></mo>"@),
        one_line("<mover accent=\"true\">"@),
        one_line("<mover>"@),
        one_line("<mpadded><mi mathvariant=\"normal\">"@),
        one_line("<mpadded><mi>"@),
        one_line("<mprescripts/>"@),
        one_line("<mroot>"@),
        one_line("<mrow"@),
        one_line("<mrow class=\"menclose-downdiagonalstrike\"></mrow>"@),
        one_line("<mrow class=\"menclose-horizontalstrike\"></mrow>"@),
        one_line("<mrow class=\"menclose-updiagonalstrike\"></mrow>"@),
        one_line("<mrow style=\"color:#"@),
        one_line("<mrow>"@),
        one_line("<mrow></mrow>"@),
        one_line("<mspace width=\""@),
        one_line("<msqrt>"@),
        one_line("<msub>"@),
        one_line("<msubsup>"@),
        one_line("<msup>"@),
        one_line("<mtable"@),
        one_line("<mtable displaystyle=\"true\" scriptlevel=\"0\" style=\"width: 100%\">"@),
        one_line("<mtd style=\"width: 50%"@),
{
    reveal_strlit("<mmultiscripts>");
    reveal_strlit("<mn>");
    reveal_strlit("<mo");
    reveal_strlit("<mo maxsize=\"");
    reveal_strlit("<mo stretchy=\"false\">");
    reveal_strlit("<mo stretchy=\"true\">");
    reveal_strlit("<mo symmetric=\"true\">");
    reveal_strlit("<mo>");
    reveal_strlit("<mo></mo>");
    reveal_strlit("<mover accent=\"true\">");
    reveal_strlit("<mover>");
    reveal_strlit("<mpadded><mi mathvariant=\"normal\">");
    reveal_strlit("<mpadded><mi>");
    reveal_strlit("<mprescripts/>");
    reveal_strlit("<mroot>");
    reveal_strlit("<mrow");
    reveal_strlit("<mrow class=\"menclose-downdiagonalstrike\"></mrow>");
    reveal_strlit("<mrow class=\"menclose-horizontalstrike\"></mrow>");
    reveal_strlit("<mrow class=\"menclose-updiagonalstrike\"></mrow>");
    reveal_strlit("<mrow style=\"color:#");
    reveal_strlit("<mrow>");
    reveal_strlit("<mrow></mrow>");
    reveal_strlit("<mspace width=\"");
    reveal_strlit("<msqrt>");
    reveal_strlit("<msub>");
    reveal_strlit("<msubsup>");
    reveal_strlit("<msup>");
    reveal_strlit("<mtable");
    reveal_strlit("<mtable displaystyle=\"true\" scriptlevel=\"0\" style=\"width: 100%\">");
    reveal_strlit("<mtd style=\"width: 50%");
}

proof fn lemma_literals_one_line_3()
    ensures
        one_line("<mtd style=\"width: 50%\"></mtd>"@),
        one_line("<mtext>"@),
        one_line("<mtext>("@),
        one_line("<mtext><b>"@),
        one_line("<mtext><code>"@),
        one_line("<mtext><em>"@),
        one_line("<mtext><i>"@),
        one_line("<mtext><span style=\"font-variant-caps: small-caps\">"@),
        one_line("<mtr>"@),
        one_line("<munder accentunder=\"true\">"@),
        one_line("<munder>"@),
        one_line("<munderover>"@),
        one_line(">"@),
        one_line("\""@),
        one_line("\" minsize=\""@),
        one_line("\" style=\"width:"@),
        one_line("\"/>"@),
        one_line("\">"@),
        one_line("\"></mtd>"@),
        one_line("downdiagonalstrike"@),
        one_line("horizontalstrike"@),
        one_line("updiagonalstrike"@),
{
    reveal_strlit("<mtd style=\"width: 50%\"></mtd>");
    reveal_strlit("<mtext>");
    reveal_strlit("<mtext>(");
    reveal_strlit("<mtext><b>");
    reveal_strlit("<mtext><code>");
    reveal_strlit("<mtext><em>");
    reveal_strlit("<mtext><i>");
    reveal_strlit("<mtext><span style=\"font-variant-caps: small-caps\">");
    reveal_strlit("<mtr>");
    reveal_strlit("<munder accentunder=\"true\">");
    reveal_strlit("<munder>");
    reveal_strlit("<munderover>");
    reveal_strlit(">");
    reveal_strlit("\"");
    reveal_strlit("\" minsize=\"");
    reveal_strlit("\" style=\"width:");
    reveal_strlit("\"/>");
    reveal_strlit("\">");
    reveal_strlit("\"></mtd>");
    reveal_strlit("downdiagonalstrike");
    reveal_strlit("horizontalstrike");
    reveal_strlit("updiagonalstrike");
}

proof fn lemma_right_align_one_line()
    ensures
        one_line(RIGHT_ALIGN@),
{
    reveal_strlit("text-align: right;justify-items: end;");
}

/// Whether the strings and characters that a node carries (numbers, names,
/// text, widths, operators, hard-coded markup) hold no line break.
pub open spec fn texts_one_line<'a>(n: Node<'a>, fuel: nat) -> bool
    decreases fuel,
{
    if fuel == 0 {
        true
    } else {
        let f = (fuel - 1) as nat;
        match n {
            Node::Number(t) => one_line(t@),
            Node::IdentifierChar(x, _) => x != '\n',
            Node::StretchableOp(op, _) => op.character() != '\n',
            Node::Operator { op, .. } => op@ != '\n',
            Node::PseudoOp { name, .. } => one_line(name@),
            Node::IdentifierStr(_, t) => one_line(t@),
            Node::Text(_, t) => one_line(t@),
            Node::Space(w, _) => one_line(w@),
            Node::SizedParen(_, op) => op.character() != '\n',
            Node::HardcodedMathML(t) => one_line(t@),
            Node::Subscript { target, symbol } => texts_one_line(*target, f) && texts_one_line(*symbol, f),
            Node::Superscript { target, symbol } => texts_one_line(*target, f) && texts_one_line(*symbol, f),
            Node::Overset { symbol, target } => texts_one_line(*target, f) && texts_one_line(*symbol, f),
            Node::Underset { symbol, target } => texts_one_line(*target, f) && texts_one_line(*symbol, f),
            Node::Root(second, first) => texts_one_line(*first, f) && texts_one_line(*second, f),
            Node::SubSup { target, sub, sup } => texts_one_line(*target, f) && texts_one_line(*sub, f)
                && texts_one_line(*sup, f),
            Node::UnderOver { target, under, over } => texts_one_line(*target, f) && texts_one_line(*under, f)
                && texts_one_line(*over, f),
            Node::Multiscript { base, sub, sup } => texts_one_line(*base, f) && (sub matches Some(x)
                ==> texts_one_line(*x, f)) && (sup matches Some(x) ==> texts_one_line(*x, f)),
            Node::OverOp(op, _, target) => op@ != '\n' && texts_one_line(*target, f),
            Node::UnderOp(op, target) => op@ != '\n' && texts_one_line(*target, f),
            Node::Sqrt(content) => texts_one_line(*content, f),
            Node::Frac { num, denom, line_thickness, .. } => (line_thickness matches Some(t) ==> one_line(t@))
                && texts_one_line(*num, f) && texts_one_line(*denom, f),
            Node::Row { nodes, .. } => forall|i: int|
                0 <= i < nodes@.len() ==> texts_one_line(*#[trigger] nodes@[i], f),
            Node::Fenced { open, close, content, .. } => (open matches Some(o) ==> o.character() != '\n')
                && (close matches Some(o) ==> o.character() != '\n') && texts_one_line(*content, f),
            Node::Slashed(inner) => match *inner {
                Node::IdentifierChar(x, _) => x != '\n',
                Node::Operator { op, .. } => op@ != '\n',
                other => texts_one_line(other, f),
            },
            Node::Table { content, .. } => forall|i: int|
                0 <= i < content@.len() ==> texts_one_line(*#[trigger] content@[i], f),
            Node::EquationArray { content, .. } => forall|i: int|
                0 <= i < content@.len() ==> texts_one_line(*#[trigger] content@[i], f),
            Node::Array { content, .. } => forall|i: int|
                0 <= i < content@.len() ==> texts_one_line(*#[trigger] content@[i], f),
            Node::Enclose { content, .. } => texts_one_line(*content, f),
            _ => true,
        }
    }
}

/// The attribute values and the other fixed pieces hold no line break.
proof fn lemma_fixed_pieces_one_line()
    ensures
        forall|a: OpAttr| #[trigger] one_line(a.text()),
        forall|m: MathSpacing| #[trigger] one_line(m.text()),
        forall|st: Style| #[trigger] one_line(st.text()),
        forall|a: FracAttr| #[trigger] one_line(a.text()),
        forall|z: Size| #[trigger] one_line(z.text()),
        forall|t: HtmlTextStyle| #[trigger] one_line(t.open_text()),
        forall|t: HtmlTextStyle| #[trigger] one_line(t.close_text()),
        forall|mode: StretchMode, st: Stretchy| #[trigger] one_line(stretchy_mo_open(mode, st)),
        forall|st: Option<Style>| #[trigger] one_line(style_text(st)),
        forall|l: Option<LineType>| #[trigger] one_line(beginning_line_text(l)),
        forall|n: Notation| #[trigger] one_line(notation_names(n)),
        forall|n: Notation| #[trigger] one_line(strike_rows(n, 0)),
        forall|e: bool| #[trigger] one_line(dummy_cell(e, 0)),
        forall|num: Option<u16>| #[trigger] one_line(equation_num_cell(0, 0, num)),
        forall|a: Option<OpAttr>, l: Option<MathSpacing>, r: Option<MathSpacing>| #[trigger] one_line(mo_open(a, l, r)),
        forall|a: RowAttr| #[trigger] one_line(row_open(a)),
        one_line(Seq::<char>::empty()),
        one_line(line_and_indent(0)),
{
    broadcast use lemma_one_line_add;

    lemma_literals_one_line_0();
    lemma_literals_one_line_1();
    lemma_literals_one_line_2();
    lemma_literals_one_line_3();
    lemma_right_align_one_line();
    lemma_empty_one_line();
    assert forall|a: OpAttr| #[trigger] one_line(a.text()) by {
        match a {
            OpAttr::StretchyFalse => {},
            OpAttr::NoMovableLimits => {},
            OpAttr::ForceMovableLimits => {},
            OpAttr::FormPrefix => {},
        }
    }
    assert forall|m: MathSpacing| #[trigger] one_line(m.text()) by {
        match m {
            MathSpacing::Zero => {},
            MathSpacing::ThreeMu => {},
            MathSpacing::FourMu => {},
            MathSpacing::FiveMu => {},
        }
    }
    assert forall|st: Style| #[trigger] one_line(st.text()) by {
        match st {
            Style::Display => {},
            Style::Text => {},
            Style::Script => {},
            Style::ScriptScript => {},
        }
    }
    assert forall|a: FracAttr| #[trigger] one_line(a.text()) by {
        match a {
            FracAttr::DisplayStyleTrue => {},
            FracAttr::DisplayStyleFalse => {},
        }
    }
    assert forall|z: Size| #[trigger] one_line(z.text()) by {
        match z {
            Size::Scale1 => {},
            Size::Scale2 => {},
            Size::Scale3 => {},
            Size::Scale4 => {},
        }
    }
    assert forall|t: HtmlTextStyle| #[trigger] one_line(t.open_text()) && #[trigger] one_line(t.close_text()) by {
        match t {
            HtmlTextStyle::Bold => {},
            HtmlTextStyle::Italic => {},
            HtmlTextStyle::Emphasis => {},
            HtmlTextStyle::Typewriter => {},
            HtmlTextStyle::SmallCaps => {},
        }
    }
    assert forall|mode: StretchMode, st: Stretchy| #[trigger] one_line(stretchy_mo_open(mode, st)) by {}
    assert forall|st: Option<Style>| #[trigger] one_line(style_text(st)) by {
        if let Some(x) = st {
            assert(one_line(x.text()));
        }
    }
    assert forall|l: Option<LineType>| #[trigger] one_line(beginning_line_text(l)) by {}
    assert forall|n: Notation| #[trigger] one_line(notation_names(n)) by {}
    assert forall|n: Notation| #[trigger] one_line(strike_rows(n, 0)) by {}
    assert forall|e: bool| #[trigger] one_line(dummy_cell(e, 0)) by {}
    assert forall|num: Option<u16>| #[trigger] one_line(equation_num_cell(0, 0, num)) by {
        if let Some(k) = num {
            lemma_decimal_one_line(k as nat);
        }
    }
    assert forall|a: Option<OpAttr>, l: Option<MathSpacing>, r: Option<MathSpacing>| #[trigger] one_line(mo_open(a, l, r)) by {
        if let Some(x) = a {
            assert(one_line(x.text()));
        }
        if let Some(x) = l {
            assert(one_line(x.text()));
        }
        if let Some(x) = r {
            assert(one_line(x.text()));
        }
    }
    assert forall|a: RowAttr| #[trigger] one_line(row_open(a)) by {
        match a {
            RowAttr::NoAttr => {},
            RowAttr::Style(x) => {
                assert(one_line(x.text()));
            },
            RowAttr::Color(r, g, b) => {
                lemma_hex_one_line(r);
                lemma_hex_one_line(g);
                lemma_hex_one_line(b);
            },
        }
    }
}

proof fn lemma_leaf_one_line<'a>(n: Node<'a>, fuel: nat)
    requires
        fuel > 0,
        texts_one_line(n, fuel),
    ensures
        one_line(leaf_mathml(n)),
{
    broadcast use lemma_one_line_add;

    lemma_fixed_pieces_one_line();
    lemma_literals_one_line_0();
    lemma_literals_one_line_1();
    lemma_literals_one_line_2();
    lemma_literals_one_line_3();
    match n {
        Node::IdentifierChar(x, _) => lemma_char_one_line(x),
        Node::StretchableOp(op, mode) => lemma_char_one_line(op.character()),
        Node::Operator { op, .. } => lemma_char_one_line(op@),
        Node::SizedParen(_, op) => lemma_char_one_line(op.character()),
        Node::Text(style, _) => {
            if let Some(st) = style {
                assert(one_line(st.open_text()) && one_line(st.close_text()));
            }
        },
        Node::Space(w, unit) => {},
        _ => {},
    }
}

/// The first `k` nodes of a row, written without indentation, hold no line
/// break when their texts hold none.
proof fn lemma_row_one_line<'a>(ns: Seq<&'a Node<'a>>, k: nat, fuel: nat)
    requires
        forall|i: int| 0 <= i < ns.len() ==> texts_one_line(*#[trigger] ns[i], fuel),
    ensures
        one_line(row_mathml(ns, k, 0, fuel)),
    decreases fuel, 1nat, k,
{
    broadcast use lemma_one_line_add;

    reveal(node_mathml);
    reveal(row_mathml);
    reveal(entries_mathml);
    reveal(table_mathml);
    lemma_empty_one_line();
    if k > 0 && k <= ns.len() {
        lemma_row_one_line(ns, (k - 1) as nat, fuel);
        lemma_compact_output_one_line(*ns[k - 1], fuel);
    }
}

/// The first `k` entries of a table, written without indentation, hold no
/// line break when their texts hold none.
proof fn lemma_entries_one_line<'a>(
    ns: Seq<&'a Node<'a>>,
    k: nat,
    kind: AlignmentType<'a>,
    is_equation_array: bool,
    fuel: nat,
)
    requires
        forall|i: int| 0 <= i < ns.len() ==> texts_one_line(*#[trigger] ns[i], fuel),
    ensures
        one_line(entries_mathml(ns, k, kind, is_equation_array, 0, fuel).0),
    decreases fuel, 1nat, k,
{
    broadcast use lemma_one_line_add;

    reveal(node_mathml);
    reveal(row_mathml);
    reveal(entries_mathml);
    reveal(table_mathml);
    lemma_fixed_pieces_one_line();
    lemma_literals_one_line_0();
    lemma_literals_one_line_1();
    lemma_literals_one_line_2();
    lemma_literals_one_line_3();
    if k > 0 && k <= ns.len() {
        lemma_entries_one_line(ns, (k - 1) as nat, kind, is_equation_array, fuel);
        let prev = entries_mathml(ns, (k - 1) as nat, kind, is_equation_array, 0, fuel);
        match *ns[k - 1] {
            Node::ColumnSeparator => {
                lemma_next_mtd_one_cell(kind, prev.1);
                assert(one_line(cell_break_text(kind, prev.1, 0)));
            },
            Node::RowSeparator(num) => {
                lemma_next_mtd_one_cell(kind, 0);
                assert(one_line(row_break_text(kind, is_equation_array, num, 0)));
            },
            e => {
                lemma_compact_output_one_line(e, fuel);
            },
        }
    }
}

/// A table written without indentation holds no line break when the texts of
/// its entries hold none.
proof fn lemma_table_one_line<'a>(
    ns: Seq<&'a Node<'a>>,
    kind: AlignmentType<'a>,
    is_equation_array: bool,
    last_equation_num: Option<u16>,
    fuel: nat,
)
    requires
        forall|i: int| 0 <= i < ns.len() ==> texts_one_line(*#[trigger] ns[i], fuel),
    ensures
        one_line(table_mathml(ns, kind, is_equation_array, last_equation_num, 0, fuel)),
    decreases fuel, 2nat, 0nat,
{
    broadcast use lemma_one_line_add;

    reveal(node_mathml);
    reveal(row_mathml);
    reveal(entries_mathml);
    reveal(table_mathml);
    lemma_fixed_pieces_one_line();
    lemma_literals_one_line_0();
    lemma_literals_one_line_1();
    lemma_literals_one_line_2();
    lemma_literals_one_line_3();
    lemma_next_mtd_one_cell(kind, 0);
    lemma_entries_one_line(ns, ns.len(), kind, is_equation_array, fuel);
    assert(one_line(table_head_text(kind, is_equation_array, 0)));
    assert(one_line(table_tail_text(is_equation_array, last_equation_num, 0)));
}

/// Without indentation (`base_indent` 0, as when output is not pretty
/// printed), writing a node adds no line break: the output holds a line break
/// only where a text, a name or a character of the node holds one.
#[verifier::rlimit(100)]
#[verifier::spinoff_prover]
pub proof fn lemma_compact_output_one_line<'a>(n: Node<'a>, fuel: nat)
    requires
        texts_one_line(n, fuel),
    ensures
        one_line(node_mathml(n, 0, fuel)),
    decreases fuel, 0nat, 0nat,
{
    broadcast use lemma_one_line_add;

    reveal(node_mathml);
    reveal(row_mathml);
    reveal(entries_mathml);
    reveal(table_mathml);
    lemma_fixed_pieces_one_line();
    lemma_literals_one_line_0();
    lemma_literals_one_line_1();
    lemma_literals_one_line_2();
    lemma_literals_one_line_3();
    if fuel > 0 {
        let f = (fuel - 1) as nat;
        match n {
            Node::Subscript { target, symbol } => {
                lemma_compact_output_one_line(*target, f);
                lemma_compact_output_one_line(*symbol, f);
            },
            Node::Superscript { target, symbol } => {
                lemma_compact_output_one_line(*target, f);
                lemma_compact_output_one_line(*symbol, f);
            },
            Node::Overset { symbol, target } => {
                lemma_compact_output_one_line(*target, f);
                lemma_compact_output_one_line(*symbol, f);
            },
            Node::Underset { symbol, target } => {
                lemma_compact_output_one_line(*target, f);
                lemma_compact_output_one_line(*symbol, f);
            },
            Node::Root(second, first) => {
                lemma_compact_output_one_line(*first, f);
                lemma_compact_output_one_line(*second, f);
            },
            Node::SubSup { target, sub, sup } => {
                lemma_compact_output_one_line(*target, f);
                lemma_compact_output_one_line(*sub, f);
                lemma_compact_output_one_line(*sup, f);
            },
            Node::UnderOver { target, under, over } => {
                lemma_compact_output_one_line(*target, f);
                lemma_compact_output_one_line(*under, f);
                lemma_compact_output_one_line(*over, f);
            },
            Node::Multiscript { base, sub, sup } => {
                lemma_compact_output_one_line(*base, f);
                if let Some(x) = sub {
                    lemma_compact_output_one_line(*x, f);
                }
                if let Some(x) = sup {
                    lemma_compact_output_one_line(*x, f);
                }
            },
            Node::OverOp(op, attr, target) => {
                lemma_char_one_line(op@);
                lemma_compact_output_one_line(*target, f);
                if let Some(a) = attr {
                    assert(one_line(a.text()));
                }
            },
            Node::UnderOp(op, target) => {
                lemma_char_one_line(op@);
                lemma_compact_output_one_line(*target, f);
            },
            Node::Sqrt(content) => {
                lemma_compact_output_one_line(*content, f);
            },
            Node::Frac { num, denom, attr, .. } => {
                lemma_compact_output_one_line(*num, f);
                lemma_compact_output_one_line(*denom, f);
                if let Some(a) = attr {
                    assert(one_line(a.text()));
                }
            },
            Node::Row { nodes, attr } => {
                lemma_row_one_line(nodes@, nodes@.len(), f);
                assert(one_line(row_open(attr)));
            },
            Node::Fenced { style, open, close, content } => {
                lemma_compact_output_one_line(*content, f);
                if let Some(o) = open {
                    lemma_char_one_line(o.character());
                    assert(one_line(stretchy_mo_open(StretchMode::Fence, o.stretchiness())));
                }
                if let Some(o) = close {
                    lemma_char_one_line(o.character());
                    assert(one_line(stretchy_mo_open(StretchMode::Fence, o.stretchiness())));
                }
                if let Some(st) = style {
                    assert(one_line(st.text()));
                }
            },
            Node::Slashed(inner) => match *inner {
                Node::IdentifierChar(x, _) => lemma_char_one_line(x),
                Node::Operator { op, .. } => lemma_char_one_line(op@),
                other => lemma_compact_output_one_line(other, f),
            },
            Node::Table { content, align, style } => {
                lemma_table_one_line(content@, AlignmentType::Predefined(align), false, None, f);
                assert(one_line(style_text(style)));
            },
            Node::EquationArray { content, align, last_equation_num } => {
                lemma_table_one_line(content@, AlignmentType::Predefined(align), true, last_equation_num, f);
            },
            Node::Array { style, content, array_spec } => {
                lemma_table_one_line(content@, AlignmentType::Custom(array_spec), false, None, f);
                assert(one_line(style_text(style)));
                assert(one_line(beginning_line_text(array_spec.beginning_line)));
            },
            Node::Enclose { content, notation } => {
                lemma_compact_output_one_line(*content, f);
                assert(one_line(notation_names(notation)));
                assert(one_line(strike_rows(notation, 0)));
            },
            _ => {
                lemma_leaf_one_line(n, fuel);
            },
        }
    }
}

} // verus!
