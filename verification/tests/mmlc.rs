use math_core::mmlc::ast::{FloatText, Node};
use math_core::mmlc::attribute::{
    Accent, Align, DisplayStyle, LineThickness, MathVariant, TextTransform,
};
use math_core::mmlc::display::Display;
use math_core::mmlc::ops::Op;

#[test]
fn node_display() {
    let problems = vec![
        (Node::Number("3.14".to_owned()), "<mn>3.14</mn>\n"),
        (Node::SingleLetterIdent('x', None), "<mi>x</mi>\n"),
        (Node::SingleLetterIdent('α', None), "<mi>α</mi>\n"),
        (
            Node::SingleLetterIdent('あ', Some(MathVariant::Normal)),
            "<mi mathvariant=\"normal\">あ</mi>\n",
        ),
    ];
    for (problem, answer) in problems.iter() {
        assert_eq!(&problem.to_string(), answer);
    }
}

fn n(s: &str) -> Box<Node> {
    Box::new(Node::Number(s.to_owned()))
}

#[test]
fn subscript_indents_children() {
    let node = Node::Subscript(Box::new(Node::SingleLetterIdent('x', None)), n("2"));
    assert_eq!(node.to_string(), "<msub>\n    <mi>x</mi>\n    <mn>2</mn>\n</msub>\n");
}

#[test]
fn nested_indentation() {
    let node = Node::Sqrt(Box::new(Node::Frac(n("1"), n("2"), LineThickness::Medium, None)));
    assert_eq!(
        node.to_string(),
        "<msqrt>\n    <mfrac>\n        <mn>1</mn>\n        <mn>2</mn>\n    </mfrac>\n</msqrt>\n"
    );
}

#[test]
fn frac_attributes() {
    let node = Node::Frac(n("1"), n("2"), LineThickness::Length(0), Some(DisplayStyle::True));
    assert_eq!(
        node.to_string(),
        "<mfrac linethickness=\"0\" displaystyle=\"true\">\n    <mn>1</mn>\n    <mn>2</mn>\n</mfrac>\n"
    );
}

#[test]
fn table_rows_and_columns() {
    let node = Node::Table(
        vec![
            Node::Number("1".to_owned()),
            Node::ColumnSeparator,
            Node::Number("2".to_owned()),
            Node::RowSeparator,
            Node::Number("3".to_owned()),
        ],
        Align::Center,
    );
    assert_eq!(
        node.to_string(),
        "<mtable>\n    <mtr>\n        <mtd>\n            <mn>1</mn>\n        </mtd>\n        <mtd>\n            <mn>2</mn>\n        </mtd>\n    </mtr>\n    <mtr>\n        <mtd>\n            <mn>3</mn>\n        </mtd>\n    </mtr>\n</mtable>\n"
    );
}

#[test]
fn table_alternating_columns() {
    let node = Node::Table(
        vec![Node::ColumnSeparator, Node::ColumnSeparator],
        Align::Alternating,
    );
    assert_eq!(
        node.to_string(),
        "<mtable>\n    <mtr>\n        <mtd style=\"text-align: right; padding-right: 0\">\n        </mtd>\n        <mtd style=\"text-align: left; padding-left: 0\">\n        </mtd>\n        <mtd style=\"text-align: right; padding-right: 0\">\n        </mtd>\n    </mtr>\n</mtable>\n"
    );
}

#[test]
fn operator_spacing() {
    let finite = |t: &str| FloatText { finite: true, text: t.to_owned() };
    let nan = FloatText { finite: false, text: "NaN".to_owned() };
    let both = Node::OperatorWithSpacing { op: Op(':'), left: finite("0.2222"), right: finite("0") };
    assert_eq!(both.to_string(), "<mo lspace=\"0.2222em\" rspace=\"0em\">:</mo>\n");
    let left = Node::OperatorWithSpacing { op: Op('≡'), left: finite("0"), right: nan.clone() };
    assert_eq!(left.to_string(), "<mo lspace=\"0em\">≡</mo>\n");
    let none = Node::OperatorWithSpacing { op: Op('='), left: nan.clone(), right: nan };
    assert_eq!(none.to_string(), "<mo>=</mo>\n");
}

#[test]
fn space_and_text() {
    let node = Node::Row(vec![
        Node::Space(FloatText { finite: true, text: "0.5".to_owned() }),
        Node::Text("hi".to_owned()),
    ]);
    assert_eq!(
        node.to_string(),
        "<mrow>\n    <mspace width=\"0.5em\"/>\n    <mtext>hi</mtext>\n</mrow>\n"
    );
}

#[test]
fn fenced_and_parens() {
    let node = Node::Fenced { open: Op('('), close: Op(')'), content: n("1") };
    assert_eq!(
        node.to_string(),
        "<mrow>\n    <mo stretchy=\"true\" form=\"prefix\">(</mo>\n    <mn>1</mn>\n    <mo stretchy=\"true\" form=\"postfix\">)</mo>\n</mrow>\n"
    );
    assert_eq!(Node::Paren(Op('[')).to_string(), "<mo stretchy=\"false\">[</mo>\n");
    assert_eq!(Node::StretchedOp(true, Op('|')).to_string(), "<mo stretchy=\"true\">|</mo>\n");
    assert_eq!(
        Node::SizedParen { size: "1.2em", paren: Op('(') }.to_string(),
        "<mrow><mo maxsize=\"1.2em\" minsize=\"1.2em\">(</mo></mrow>\n"
    );
}

#[test]
fn over_and_under() {
    let node = Node::OverOp(Op('¯'), Accent::True, Box::new(Node::SingleLetterIdent('x', None)));
    assert_eq!(
        node.to_string(),
        "<mover>\n    <mi>x</mi>\n    <mo accent=\"true\">¯</mo>\n</mover>\n"
    );
    let node = Node::Underset { under: n("0"), target: Box::new(Node::MultiLetterIdent("lim".to_owned(), None)) };
    assert_eq!(node.to_string(), "<munder>\n    <mi>lim</mi>\n    <mn>0</mn>\n</munder>\n");
}

#[test]
fn slashed_and_errors() {
    let node = Node::Slashed(Box::new(Node::SingleLetterIdent('x', None)));
    assert_eq!(node.to_string(), "<mi>x&#x0338;</mi>\n");
    let node = Node::Slashed(Box::new(Node::Operator(Op('='))));
    assert_eq!(node.to_string(), "<mo>=&#x0338;</mo>\n");
    assert_eq!(
        Node::Undefined("a\"b".to_owned()).to_string(),
        "<merror><mtext>Parse error: Undefined(\"a\\\"b\")</mtext></merror>\n"
    );
    assert_eq!(
        Node::RowSeparator.to_string(),
        "<merror><mtext>Parse error: RowSeparator</mtext></merror>\n"
    );
}

#[test]
fn pseudo_row_keeps_indent() {
    let mut out = String::new();
    Node::PseudoRow(vec![Node::Number("1".to_owned()), Node::Number("2".to_owned())]).write_to(&mut out, 2);
    assert_eq!(out, "  <mn>1</mn>\n  <mn>2</mn>\n");
}

#[test]
fn attribute_texts() {
    assert_eq!(MathVariant::Normal.to_string(), " mathvariant=\"normal\"");
    assert_eq!(Accent::False.to_string(), "false");
    assert_eq!(LineThickness::Thin.to_string(), " linethickness=\"thin\"");
    assert_eq!(LineThickness::Medium.to_string(), "");
    assert_eq!(LineThickness::Thick.to_string(), " linethickness=\"medium\"");
    assert_eq!(LineThickness::Length(12).to_string(), " linethickness=\"12\"");
    assert_eq!(DisplayStyle::False.to_string(), " displaystyle=\"false\"");
    assert_eq!(Display::Block.as_str(), "block");
    assert_eq!(Display::Inline.as_str(), "inline");
    assert_eq!(Op('+').char(), '+');
}

#[test]
fn text_transforms() {
    assert_eq!(TextTransform::Bold.transform('A'), '𝐀');
    assert_eq!(TextTransform::Bold.transform('9'), '𝟗');
    assert_eq!(TextTransform::Italic.transform('h'), 'ℎ');
    assert_eq!(TextTransform::Italic.transform('a'), '𝑎');
    assert_eq!(TextTransform::DoubleStruck.transform('R'), 'ℝ');
    assert_eq!(TextTransform::DoubleStruck.transform('P'), 'ℙ');
    assert_eq!(TextTransform::Fraktur.transform('H'), 'ℌ');
    assert_eq!(TextTransform::Script.transform('B'), 'ℬ');
    assert_eq!(TextTransform::Script.transform('E'), 'ℰ');
    assert_eq!(TextTransform::BoldItalic.transform('α'), '𝜶');
    assert_eq!(TextTransform::Monospace.transform('0'), '𝟶');
    assert_eq!(TextTransform::SansSerifBoldItalic.transform('∇'), '𝞩');
    // Characters outside a style stay as they are.
    assert_eq!(TextTransform::BoldScript.transform('1'), '1');
    assert_eq!(TextTransform::SansSerifItalic.transform('+'), '+');
}

#[test]
fn letterlike_capitals() {
    assert_eq!(TextTransform::Script.transform('H'), 'ℋ');
    assert_eq!(TextTransform::Script.transform('I'), 'ℐ');
    assert_eq!(TextTransform::Fraktur.transform('H'), 'ℌ');
    assert_eq!(TextTransform::Fraktur.transform('I'), 'ℑ');
    assert_eq!(TextTransform::DoubleStruck.transform('O'), '𝕆');
    assert_eq!(TextTransform::DoubleStruck.transform('M'), '𝕄');
    assert_eq!(TextTransform::DoubleStruck.transform('N'), 'ℕ');
}
