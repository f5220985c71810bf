use math_core::mathml_renderer::length::LengthUnit;
use math_core::mathml_renderer::symbol::{ord, Fence, MathMLOperator, OrdCategory};
use math_core::renderer::attribute::{
    FracAttr, HtmlTextStyle, LetterAttr, MathSpacing, Notation, OpAttr, RowAttr, Size, Style,
};
use math_core::renderer::node::Node;
use math_core::renderer::table::{Alignment, ArraySpec, ColumnAlignment, ColumnSpec, LineType};

fn render(node: &Node) -> String {
    let mut output = String::new();
    node.emit(&mut output, 0).unwrap();
    output
}

fn op(c: char) -> MathMLOperator {
    MathMLOperator::new(c)
}

#[test]
fn ast_render_number() {
    assert_eq!(render(&Node::Number("3.14")), "<mn>3.14</mn>");
}

#[test]
fn ast_render_single_letter_ident() {
    assert_eq!(
        render(&Node::IdentifierChar('x', LetterAttr::Default)),
        "<mi>x</mi>"
    );
    assert_eq!(
        render(&Node::IdentifierChar('Γ', LetterAttr::ForcedUpright)),
        "<mpadded><mi mathvariant=\"normal\">Γ</mi></mpadded>"
    );
    assert_eq!(
        render(&Node::IdentifierChar('𝑥', LetterAttr::Default)),
        "<mi>𝑥</mi>"
    );
}

#[test]
fn ast_render_operator_with_spacing() {
    assert_eq!(
        render(&Node::Operator {
            op: op(':'),
            attr: None,
            left: Some(MathSpacing::FourMu),
            right: Some(MathSpacing::FourMu),
        }),
        "<mo lspace=\"0.2222em\" rspace=\"0.2222em\">:</mo>"
    );
    assert_eq!(
        render(&Node::Operator {
            op: op(':'),
            attr: None,
            left: Some(MathSpacing::FourMu),
            right: Some(MathSpacing::Zero),
        }),
        "<mo lspace=\"0.2222em\" rspace=\"0\">:</mo>"
    );
    assert_eq!(
        render(&Node::Operator {
            op: op('≡'),
            attr: None,
            left: Some(MathSpacing::Zero),
            right: None,
        }),
        "<mo lspace=\"0\">≡</mo>"
    );
    assert_eq!(
        render(&Node::Operator {
            op: op('+'),
            attr: Some(OpAttr::FormPrefix),
            left: None,
            right: None,
        }),
        "<mo form=\"prefix\">+</mo>"
    );
    assert_eq!(
        render(&Node::Operator {
            op: op('∑'),
            attr: Some(OpAttr::NoMovableLimits),
            left: None,
            right: None,
        }),
        "<mo movablelimits=\"false\">∑</mo>"
    );
}

#[test]
fn render_pseudo_operator() {
    assert_eq!(
        render(&Node::PseudoOp {
            attr: None,
            left: Some(MathSpacing::ThreeMu),
            right: Some(MathSpacing::ThreeMu),
            name: "sin"
        }),
        "<mo lspace=\"0.1667em\" rspace=\"0.1667em\">sin</mo>"
    );
}

#[test]
fn ast_render_collected_letters() {
    assert_eq!(
        render(&Node::IdentifierStr(false, "sin")),
        "<mpadded><mi>sin</mi></mpadded>"
    );
}

#[test]
fn ast_render_space() {
    assert_eq!(
        render(&Node::Space("1em", LengthUnit::Em)),
        "<mspace width=\"1em\"/>"
    );
}

#[test]
fn ast_render_subscript() {
    assert_eq!(
        render(&Node::Subscript {
            target: &Node::IdentifierChar('x', LetterAttr::Default),
            symbol: &Node::Number("2"),
        }),
        "<msub><mi>x</mi><mn>2</mn></msub>"
    );
}

#[test]
fn ast_render_superscript() {
    assert_eq!(
        render(&Node::Superscript {
            target: &Node::IdentifierChar('x', LetterAttr::Default),
            symbol: &Node::Number("2"),
        }),
        "<msup><mi>x</mi><mn>2</mn></msup>"
    );
}

#[test]
fn ast_render_sub_sup() {
    assert_eq!(
        render(&Node::SubSup {
            target: &Node::IdentifierChar('x', LetterAttr::Default),
            sub: &Node::Number("1"),
            sup: &Node::Number("2"),
        }),
        "<msubsup><mi>x</mi><mn>1</mn><mn>2</mn></msubsup>"
    );
}

#[test]
fn ast_render_over_op() {
    assert_eq!(
        render(&Node::OverOp(
            op('¯'),
            Some(OpAttr::StretchyFalse),
            &Node::IdentifierChar('x', LetterAttr::Default),
        )),
        "<mover accent=\"true\"><mi>x</mi><mo stretchy=\"false\">¯</mo></mover>"
    );
    assert_eq!(
        render(&Node::OverOp(
            op('‾'),
            None,
            &Node::IdentifierChar('x', LetterAttr::Default),
        )),
        "<mover accent=\"true\"><mi>x</mi><mo>‾</mo></mover>"
    );
}

#[test]
fn ast_render_under_op() {
    assert_eq!(
        render(&Node::UnderOp(
            op('_'),
            &Node::IdentifierChar('x', LetterAttr::Default),
        )),
        "<munder accentunder=\"true\"><mi>x</mi><mo>_</mo></munder>"
    );
}

#[test]
fn ast_render_overset() {
    assert_eq!(
        render(&Node::Overset {
            symbol: &Node::Operator {
                op: op('!'),
                attr: None,
                left: None,
                right: None
            },
            target: &Node::Operator {
                op: op('='),
                attr: None,
                left: None,
                right: None
            },
        }),
        "<mover><mo>=</mo><mo>!</mo></mover>"
    );
}

#[test]
fn ast_render_underset() {
    assert_eq!(
        render(&Node::Underset {
            symbol: &Node::IdentifierChar('θ', LetterAttr::Default),
            target: &Node::PseudoOp {
                attr: Some(OpAttr::ForceMovableLimits),
                left: Some(MathSpacing::ThreeMu),
                right: Some(MathSpacing::ThreeMu),
                name: "min",
            },
        }),
        "<munder><mo movablelimits=\"true\" lspace=\"0.1667em\" rspace=\"0.1667em\">min</mo><mi>θ</mi></munder>"
    );
}

#[test]
fn ast_render_under_over() {
    assert_eq!(
        render(&Node::UnderOver {
            target: &Node::IdentifierChar('x', LetterAttr::Default),
            under: &Node::Number("1"),
            over: &Node::Number("2"),
        }),
        "<munderover><mi>x</mi><mn>1</mn><mn>2</mn></munderover>"
    );
}

#[test]
fn ast_render_sqrt() {
    assert_eq!(
        render(&Node::Sqrt(&Node::IdentifierChar('x', LetterAttr::Default))),
        "<msqrt><mi>x</mi></msqrt>"
    );
}

#[test]
fn ast_render_root() {
    assert_eq!(
        render(&Node::Root(
            &Node::Number("3"),
            &Node::IdentifierChar('x', LetterAttr::Default),
        )),
        "<mroot><mi>x</mi><mn>3</mn></mroot>"
    );
}

#[test]
fn ast_render_frac() {
    let num = &Node::Number("1");
    let denom = &Node::Number("2");
    assert_eq!(
        render(&Node::Frac {
            num,
            denom,
            line_thickness: None,
            attr: None,
        }),
        "<mfrac><mn>1</mn><mn>2</mn></mfrac>"
    );
    assert_eq!(
        render(&Node::Frac {
            num,
            denom,
            line_thickness: None,
            attr: Some(FracAttr::DisplayStyleTrue),
        }),
        "<mfrac displaystyle=\"true\"><mn>1</mn><mn>2</mn></mfrac>"
    );
    assert_eq!(
        render(&Node::Frac {
            num,
            denom,
            line_thickness: None,
            attr: Some(FracAttr::DisplayStyleFalse),
        }),
        "<mfrac displaystyle=\"false\"><mn>1</mn><mn>2</mn></mfrac>"
    );
    assert_eq!(
        render(&Node::Frac {
            num,
            denom,
            line_thickness: Some("-1rem"),
            attr: None,
        }),
        "<mfrac linethickness=\"-1rem\"><mn>1</mn><mn>2</mn></mfrac>"
    );
    assert_eq!(
        render(&Node::Frac {
            num,
            denom,
            line_thickness: Some("1em"),
            attr: None,
        }),
        "<mfrac linethickness=\"1em\"><mn>1</mn><mn>2</mn></mfrac>"
    );
    assert_eq!(
        render(&Node::Frac {
            num,
            denom,
            line_thickness: Some("-1ex"),
            attr: None,
        }),
        "<mfrac linethickness=\"-1ex\"><mn>1</mn><mn>2</mn></mfrac>"
    );
    assert_eq!(
        render(&Node::Frac {
            num,
            denom,
            line_thickness: Some("2rem"),
            attr: None,
        }),
        "<mfrac linethickness=\"2rem\"><mn>1</mn><mn>2</mn></mfrac>"
    );
    assert_eq!(
        render(&Node::Frac {
            num,
            denom,
            line_thickness: Some("0"),
            attr: Some(FracAttr::DisplayStyleTrue),
        }),
        "<mfrac linethickness=\"0\" displaystyle=\"true\"><mn>1</mn><mn>2</mn></mfrac>"
    );
}

#[test]
fn ast_render_row() {
    let nodes: &[&Node] = &[
        &Node::IdentifierChar('x', LetterAttr::Default),
        &Node::Operator {
            op: op('='),
            attr: None,
            left: None,
            right: None,
        },
        &Node::Number("1"),
    ];

    assert_eq!(
        render(&Node::Row {
            nodes,
            attr: RowAttr::Style(Style::Display)
        }),
        "<mrow displaystyle=\"true\" scriptlevel=\"0\"><mi>x</mi><mo>=</mo><mn>1</mn></mrow>"
    );

    assert_eq!(
        render(&Node::Row {
            nodes,
            attr: RowAttr::Color(0, 0, 0)
        }),
        "<mrow style=\"color:#000000;\"><mi>x</mi><mo>=</mo><mn>1</mn></mrow>"
    );
}

#[test]
fn ast_render_hardcoded_mathml() {
    assert_eq!(render(&Node::HardcodedMathML("<mi>hi</mi>")), "<mi>hi</mi>");
}

#[test]
fn ast_render_sized_paren() {
    assert_eq!(
        render(&Node::SizedParen(Size::Scale1, Fence::new('(').as_op())),
        "<mo maxsize=\"1.2em\" minsize=\"1.2em\">(</mo>"
    );
    assert_eq!(
        render(&Node::SizedParen(
            Size::Scale3,
            ord('/', OrdCategory::OnlyK).as_stretchable_op().unwrap()
        )),
        "<mo maxsize=\"2.047em\" minsize=\"2.047em\" stretchy=\"true\" symmetric=\"true\">/</mo>"
    );
}

#[test]
fn ast_render_text() {
    assert_eq!(render(&Node::Text(None, "hello")), "<mtext>hello</mtext>");
}

#[test]
fn ast_render_table() {
    let nodes: [&Node; 7] = [
        &Node::Number("1"),
        &Node::ColumnSeparator,
        &Node::Number("2"),
        &Node::RowSeparator(None),
        &Node::Number("3"),
        &Node::ColumnSeparator,
        &Node::Number("4"),
    ];

    assert_eq!(
        render(&Node::Table {
            content: &nodes,
            align: Alignment::Centered,
            style: None,
        }),
        "<mtable><mtr><mtd><mn>1</mn></mtd><mtd><mn>2</mn></mtd></mtr><mtr><mtd><mn>3</mn></mtd><mtd><mn>4</mn></mtd></mtr></mtable>"
    );
}

#[test]
fn render_equation_array() {
    let nodes: [&Node; 7] = [
        &Node::Number("1"),
        &Node::ColumnSeparator,
        &Node::Number("2"),
        &Node::RowSeparator(Some(1)),
        &Node::Number("3"),
        &Node::ColumnSeparator,
        &Node::Number("4"),
    ];

    assert_eq!(
        render(&Node::EquationArray {
            content: &nodes,
            align: Alignment::Centered,
            last_equation_num: Some(2),
        }),
        "<mtable displaystyle=\"true\" scriptlevel=\"0\" style=\"width: 100%\"><mtr><mtd style=\"width: 50%\"></mtd><mtd><mn>1</mn></mtd><mtd><mn>2</mn></mtd><mtd style=\"width: 50%;text-align: right;justify-items: end;\"><mtext>(1)</mtext></mtd></mtr><mtr><mtd style=\"width: 50%\"></mtd><mtd><mn>3</mn></mtd><mtd><mn>4</mn></mtd><mtd style=\"width: 50%;text-align: right;justify-items: end;\"><mtext>(2)</mtext></mtd></mtr></mtable>"
    );

    assert_eq!(
        render(&Node::EquationArray {
            content: &nodes,
            align: Alignment::Centered,
            last_equation_num: None,
        }),
        "<mtable displaystyle=\"true\" scriptlevel=\"0\" style=\"width: 100%\"><mtr><mtd style=\"width: 50%\"></mtd><mtd><mn>1</mn></mtd><mtd><mn>2</mn></mtd><mtd style=\"width: 50%;text-align: right;justify-items: end;\"><mtext>(1)</mtext></mtd></mtr><mtr><mtd style=\"width: 50%\"></mtd><mtd><mn>3</mn></mtd><mtd><mn>4</mn></mtd><mtd style=\"width: 50%\"></mtd></mtr></mtable>"
    );
}

#[test]
fn render_array() {
    let nodes: [&Node; 7] = [
        &Node::Number("1"),
        &Node::ColumnSeparator,
        &Node::Number("2"),
        &Node::RowSeparator(None),
        &Node::Number("3"),
        &Node::ColumnSeparator,
        &Node::Number("4"),
    ];

    assert_eq!(
        render(&Node::Array {
            style: None,
            content: &nodes,
            array_spec: &ArraySpec {
                beginning_line: None,
                is_sub: false,
                column_spec: &[
                    ColumnSpec::WithContent(ColumnAlignment::LeftJustified, None),
                    ColumnSpec::WithContent(ColumnAlignment::Centered, None),
                ],
            },
        }),
        "<mtable><mtr><mtd style=\"text-align: left;justify-items: start;\"><mn>1</mn></mtd><mtd><mn>2</mn></mtd></mtr><mtr><mtd style=\"text-align: left;justify-items: start;\"><mn>3</mn></mtd><mtd><mn>4</mn></mtd></mtr></mtable>"
    );
}

#[test]
fn ast_render_slashed() {
    assert_eq!(
        render(&Node::Slashed(&Node::IdentifierChar(
            'x',
            LetterAttr::Default,
        ))),
        "<mi>x&#x0338;</mi>"
    );
}

#[test]
fn ast_render_multiscript() {
    assert_eq!(
        render(&Node::Multiscript {
            base: &Node::IdentifierChar('x', LetterAttr::Default),
            sub: Some(&Node::Number("1")),
            sup: None,
        }),
        "<mmultiscripts><mi>x</mi><mprescripts/><mn>1</mn><mrow></mrow></mmultiscripts>"
    );
}

#[test]
fn ast_render_text_transform() {
    assert_eq!(
        render(&Node::IdentifierChar('a', LetterAttr::ForcedUpright)),
        "<mpadded><mi mathvariant=\"normal\">a</mi></mpadded>"
    );
    assert_eq!(
        render(&Node::IdentifierChar('a', LetterAttr::ForcedUpright)),
        "<mpadded><mi mathvariant=\"normal\">a</mi></mpadded>"
    );
    assert_eq!(
        render(&Node::IdentifierStr(false, "abc")),
        "<mpadded><mi>abc</mi></mpadded>"
    );
    assert_eq!(
        render(&Node::IdentifierChar('𝐚', LetterAttr::Default)),
        "<mi>𝐚</mi>"
    );
    assert_eq!(
        render(&Node::IdentifierChar('𝒂', LetterAttr::Default)),
        "<mi>𝒂</mi>"
    );
    assert_eq!(render(&Node::IdentifierStr(true, "𝒂𝒃𝒄")), "<mi>𝒂𝒃𝒄</mi>");
}

#[test]
fn render_enclose() {
    let content = Node::Row {
        nodes: &[
            &Node::IdentifierChar('a', LetterAttr::Default),
            &Node::IdentifierChar('b', LetterAttr::Default),
            &Node::IdentifierChar('c', LetterAttr::Default),
        ],
        attr: RowAttr::NoAttr,
    };

    assert_eq!(
        render(&Node::Enclose {
            content: &content,
            notation: Notation { up: true, down: true, horizontal: false },
        }),
        "<menclose notation=\"updiagonalstrike downdiagonalstrike\"><mrow><mi>a</mi><mi>b</mi><mi>c</mi></mrow><mrow class=\"menclose-updiagonalstrike\"></mrow><mrow class=\"menclose-downdiagonalstrike\"></mrow></menclose>"
    );
}

// Behaviour beyond the cases above.

#[test]
fn emit_indents_children_one_level_deeper() {
    let node = Node::Sqrt(&Node::Number("2"));
    let mut out = String::new();
    node.emit(&mut out, 1).unwrap();
    assert_eq!(out, "\n    <msqrt>\n        <mn>2</mn>\n    </msqrt>");
}

#[test]
fn emit_appends_to_what_is_there() {
    let mut out = String::from("<math>");
    Node::Number("1").emit(&mut out, 0).unwrap();
    assert_eq!(out, "<math><mn>1</mn>");
}

#[test]
fn emit_space_in_rem_repeats_width_as_style() {
    assert_eq!(
        render(&Node::Space("2rem", LengthUnit::Rem)),
        "<mspace width=\"2rem\" style=\"width:2rem\"/>"
    );
}

#[test]
fn emit_text_styles() {
    assert_eq!(
        render(&Node::Text(Some(HtmlTextStyle::Bold), "a")),
        "<mtext><b>a</b></mtext>"
    );
    assert_eq!(
        render(&Node::Text(Some(HtmlTextStyle::SmallCaps), "a")),
        "<mtext><span style=\"font-variant-caps: small-caps\">a</span></mtext>"
    );
}

#[test]
fn emit_nothing_for_dummy_and_row_separator() {
    assert_eq!(render(&Node::Dummy), "");
    assert_eq!(render(&Node::RowSeparator(None)), "");
}

#[test]
fn emit_fenced_and_stretchy() {
    let content = Node::Number("1");
    let open = Fence::new('(').as_op();
    let close = Fence::new(')').as_op();
    assert_eq!(
        render(&Node::Fenced {
            style: Some(Style::Text),
            open: Some(open),
            close: None,
            content: &content,
        }),
        "<mrow displaystyle=\"false\" scriptlevel=\"0\"><mo>(</mo><mn>1</mn><mo></mo></mrow>"
    );
    assert_eq!(
        render(&Node::StretchableOp(close, math_core::mathml_renderer::attribute::StretchMode::NoStretch)),
        "<mo stretchy=\"false\">)</mo>"
    );
}

#[test]
fn emit_array_with_lines() {
    let nodes: [&Node; 3] = [&Node::Number("1"), &Node::ColumnSeparator, &Node::Number("2")];
    assert_eq!(
        render(&Node::Array {
            style: None,
            content: &nodes,
            array_spec: &ArraySpec {
                beginning_line: Some(LineType::Solid),
                is_sub: false,
                column_spec: &[
                    ColumnSpec::WithContent(ColumnAlignment::Centered, None),
                    ColumnSpec::OnlyLine(LineType::Dashed),
                    ColumnSpec::WithContent(ColumnAlignment::RightJustified, None),
                ],
            },
        }),
        "<mtable style=\"border-left: 0.05em solid currentcolor\"><mtr><mtd><mn>1</mn></mtd><mtd style=\"border-right: 0.05em dashed currentcolor;padding-left: 0.1em;padding-right: 0.1em;\"></mtd><mtd style=\"text-align: right;justify-items: end;\"><mn>2</mn></mtd></mtr></mtable>"
    );
}

#[test]
fn emit_slashed_operator_and_other() {
    assert_eq!(
        render(&Node::Slashed(&Node::Operator { op: op('='), attr: None, left: None, right: None })),
        "<mo>=&#x0338;</mo>"
    );
    assert_eq!(render(&Node::Slashed(&Node::Number("1"))), "<mn>1</mn>");
}

#[test]
fn compact_output_has_no_line_break() {
    let nodes: [&Node; 3] = [&Node::Number("1"), &Node::RowSeparator(Some(3)), &Node::Number("2")];
    let out = render(&Node::EquationArray {
        content: &nodes,
        align: Alignment::Alternating,
        last_equation_num: None,
    });
    assert!(!out.contains('\n'));
    let mut pretty = String::new();
    Node::EquationArray {
        content: &nodes,
        align: Alignment::Alternating,
        last_equation_num: None,
    }
    .emit(&mut pretty, 1)
    .unwrap();
    assert!(pretty.contains('\n'));
    let squeezed: String = pretty.lines().map(|l| l.trim_start()).collect();
    assert_eq!(squeezed, out);
}
