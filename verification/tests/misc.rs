use math_core::config::{is_valid_macro_name, Flags, MathDisplay, PrettyPrint};
use math_core::latex_parser::character_class::Class;
use math_core::latex_parser::parse::{get_single_char, ParseAs};
use math_core::mathml_renderer::attribute::StretchMode;
use math_core::mathml_renderer::length::LengthUnit;
use math_core::mathml_renderer::ops::{emit_stretchy_op as emit_paren_op, Op, ParenOp};
use math_core::mathml_renderer::attribute::Stretchy as ParenStretchy;
use math_core::mathml_renderer::symbol::{
    bin, ord, rel, BinCategory, Fence, MathMLOperator, OrdCategory, Punct, RelCategory, Stretchy,
};
use math_core::renderer::ast::{emit_stretchy_op, write_equation_num};
use math_core::token::Digit;

#[test]
fn macro_names() {
    assert!(!is_valid_macro_name(""));
    assert!(is_valid_macro_name("d"));
    assert!(is_valid_macro_name("é"));
    assert!(is_valid_macro_name("{"));
    assert!(is_valid_macro_name("bb"));
    assert!(is_valid_macro_name("RR"));
    assert!(!is_valid_macro_name("b2"));
    assert!(!is_valid_macro_name("éa"));
    assert!(!is_valid_macro_name("a b"));
}

#[test]
fn defaults() {
    assert!(matches!(PrettyPrint::default(), PrettyPrint::Never));
    assert_eq!(Class::default(), Class::Default);
    assert_ne!(MathDisplay::Block, MathDisplay::Inline);
}

#[test]
fn single_chars() {
    assert_eq!(get_single_char("x"), Some('x'));
    assert_eq!(get_single_char("↩"), Some('↩'));
    assert_eq!(get_single_char(""), None);
    assert_eq!(get_single_char("xy"), None);
    assert!(ParseAs::Sequence.in_sequence());
    assert!(ParseAs::ContinueSequence.in_sequence());
    assert!(!ParseAs::Arg.in_sequence());
    assert!(!ParseAs::ArgWithSpace.in_sequence());
}

#[test]
fn digits() {
    assert_eq!(Digit::try_from('0'), Ok(Digit::Zero));
    assert_eq!(Digit::try_from('7'), Ok(Digit::Seven));
    assert_eq!(Digit::try_from('9'), Ok(Digit::Nine));
    assert_eq!(Digit::try_from('a'), Err(()));
    assert_eq!(Digit::try_from('٣'), Err(()));
}

#[test]
fn length_units() {
    assert_eq!(LengthUnit::Rem.as_str(), "rem");
    assert_eq!(LengthUnit::Em.as_str(), "em");
    assert_eq!(LengthUnit::Ex.as_str(), "ex");
}

#[test]
fn operators() {
    let op = Op::new('+');
    assert_eq!(char::from(op), '+');
    assert_eq!(char::from(&op), '+');
    let paren = ParenOp::new('|', true, ParenStretchy::PrePostfix);
    assert!(paren.ordinary_spacing());
    assert_eq!(paren.stretchy(), ParenStretchy::PrePostfix);
    assert_eq!(char::from(&paren), '|');
    let m = MathMLOperator::new('=');
    assert_eq!(m.as_char(), '=');
    assert_eq!(char::from(m), '=');
    assert_eq!(Punct::new(',').as_op().as_char(), ',');
    assert_eq!(bin('+', BinCategory::BD).as_op().as_char(), '+');
}

#[test]
fn stretchable_ops() {
    let bar = ord('|', OrdCategory::FG).as_stretchable_op().unwrap();
    assert_eq!(bar.stretchy, Stretchy::PrePostfix);
    assert!(bar.ordinary_spacing());
    assert_eq!(bar.as_char(), '|');
    let slash = ord('/', OrdCategory::OnlyK).as_stretchable_op().unwrap();
    assert_eq!(slash.stretchy, Stretchy::Never);
    assert!(ord('¬', OrdCategory::OnlyD).as_stretchable_op().is_none());
    let up = rel('↑', RelCategory::OnlyA).as_stretchable_op().unwrap();
    assert_eq!(up.stretchy, Stretchy::AlwaysAsymmetric);
    assert!(!up.ordinary_spacing());
    assert!(rel('=', RelCategory::Default).as_stretchable_op().is_none());
    let paren = Fence::new('(').as_op();
    assert_eq!(paren.stretchy, Stretchy::Always);
    assert_eq!(paren.as_char(), '(');
}

#[test]
fn stretchy_markup() {
    let mut s = String::new();
    emit_stretchy_op(&mut s, StretchMode::NoStretch, Some(Fence::new('(').as_op())).unwrap();
    assert_eq!(s, "<mo stretchy=\"false\">(</mo>");
    s.clear();
    let bar = ord('|', OrdCategory::FG).as_stretchable_op();
    emit_stretchy_op(&mut s, StretchMode::Middle, bar).unwrap();
    assert_eq!(s, "<mo stretchy=\"true\">|</mo>");
    s.clear();
    let up = rel('↑', RelCategory::OnlyA).as_stretchable_op();
    emit_stretchy_op(&mut s, StretchMode::Middle, up).unwrap();
    assert_eq!(s, "<mo symmetric=\"true\">↑</mo>");
    s.clear();
    emit_stretchy_op(&mut s, StretchMode::Fence, Some(Fence::new(')').as_op())).unwrap();
    assert_eq!(s, "<mo>)</mo>");
    s.clear();
    emit_stretchy_op(&mut s, StretchMode::Fence, None).unwrap();
    assert_eq!(s, "<mo></mo>");
}

#[test]
fn equation_numbers() {
    let mut s = String::new();
    write_equation_num(&mut s, 2, 3, Some(12)).unwrap();
    assert_eq!(
        s,
        "\n        <mtd style=\"width: 50%;text-align: right;justify-items: end;\">\n            <mtext>(12)</mtext>\n        </mtd>"
    );
    s.clear();
    write_equation_num(&mut s, 0, 0, None).unwrap();
    assert_eq!(s, "<mtd style=\"width: 50%\"></mtd>");
}

#[test]
fn paren_stretching_markup() {
    let cases = [
        (ParenOp::new('(', false, ParenStretchy::Always), StretchMode::Fence, "<mo>(</mo>"),
        (
            ParenOp::new('(', false, ParenStretchy::Always),
            StretchMode::NoStretch,
            "<mo stretchy=\"false\">(</mo>",
        ),
        (
            ParenOp::new('/', true, ParenStretchy::Never),
            StretchMode::Fence,
            "<mo stretchy=\"true\">/</mo>",
        ),
        (
            ParenOp::new('|', true, ParenStretchy::PrePostfix),
            StretchMode::Middle,
            "<mo stretchy=\"true\">|</mo>",
        ),
        (ParenOp::new('|', true, ParenStretchy::PrePostfix), StretchMode::Fence, "<mo>|</mo>"),
        (
            ParenOp::new('↑', false, ParenStretchy::Inconsistent),
            StretchMode::Fence,
            "<mo stretchy=\"true\">↑</mo>",
        ),
        (
            ParenOp::new('↑', false, ParenStretchy::Inconsistent),
            StretchMode::NoStretch,
            "<mo stretchy=\"false\">↑</mo>",
        ),
        (ParenOp::new('\0', false, ParenStretchy::Always), StretchMode::Fence, "<mo></mo>"),
        (ParenOp::new('/', true, ParenStretchy::Never), StretchMode::NoStretch, "<mo>/</mo>"),
    ];
    for (op, mode, expected) in cases.iter() {
        let mut s = String::from("x");
        assert!(emit_paren_op(&mut s, *mode, op).is_ok());
        assert_eq!(s, format!("x{}", expected));
    }
}

#[test]
fn math_element_flags() {
    let plain = Flags { pretty_print: PrettyPrint::Never, xml_namespace: false };
    assert_eq!(plain.math_element(MathDisplay::Inline, "<mi>x</mi>"), "<math><mi>x</mi></math>");
    assert_eq!(
        plain.math_element(MathDisplay::Block, "<mi>x</mi>"),
        "<math display=\"block\"><mi>x</mi></math>"
    );
    let auto = Flags { pretty_print: PrettyPrint::Auto, xml_namespace: true };
    assert_eq!(
        auto.math_element(MathDisplay::Block, "\n    <mi>x</mi>"),
        "<math xmlns=\"http://www.w3.org/1998/Math/MathML\" display=\"block\">\n    <mi>x</mi>\n</math>"
    );
    assert_eq!(
        auto.math_element(MathDisplay::Inline, "<mi>x</mi>"),
        "<math xmlns=\"http://www.w3.org/1998/Math/MathML\"><mi>x</mi></math>"
    );
}

#[test]
fn pretty_printing_by_display() {
    let flags = |p| Flags { pretty_print: p, xml_namespace: false };
    assert_eq!(flags(PrettyPrint::Auto).base_indent(MathDisplay::Inline), 0);
    assert_eq!(flags(PrettyPrint::Auto).base_indent(MathDisplay::Block), 1);
    assert_eq!(flags(PrettyPrint::Always).base_indent(MathDisplay::Inline), 1);
    assert_eq!(flags(PrettyPrint::Never).base_indent(MathDisplay::Block), 0);
    assert!(flags(PrettyPrint::Always).pretty_print_for(MathDisplay::Block));
    assert!(!flags(PrettyPrint::Never).pretty_print_for(MathDisplay::Inline));
}
