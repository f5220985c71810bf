use math_core::mmlc::ast::Node;
use math_core::mmlc::attribute::{MathVariant, TextTransform};
use math_core::mmlc::ops::Op;
use math_core::mmlc::rewrite::{merge_single_letters, set_variant, transform_text};

fn letter(c: char) -> Node {
    Node::SingleLetterIdent(c, None)
}

#[test]
fn set_variant_on_identifiers_and_rows() {
    assert_eq!(
        set_variant(letter('x'), MathVariant::Normal),
        Node::SingleLetterIdent('x', Some(MathVariant::Normal))
    );
    assert_eq!(
        set_variant(Node::MultiLetterIdent("ab".to_string(), None), MathVariant::Normal),
        Node::MultiLetterIdent("ab".to_string(), Some(MathVariant::Normal))
    );
    assert_eq!(
        set_variant(
            Node::Row(vec![letter('x'), Node::Number("2".to_string())]),
            MathVariant::Normal
        ),
        Node::Row(vec![
            Node::SingleLetterIdent('x', Some(MathVariant::Normal)),
            Node::Number("2".to_string())
        ])
    );
    assert_eq!(set_variant(Node::Number("7".to_string()), MathVariant::Normal), Node::Number("7".to_string()));
}

#[test]
fn transform_text_bold() {
    assert_eq!(transform_text(letter('A'), TextTransform::Bold), letter('\u{1D400}'));
    assert_eq!(
        transform_text(
            Node::SingleLetterIdent('a', Some(MathVariant::Normal)),
            TextTransform::Bold
        ),
        letter('\u{1D41A}')
    );
    assert_eq!(
        transform_text(Node::MultiLetterIdent("ab".to_string(), None), TextTransform::Bold),
        Node::MultiLetterIdent("\u{1D41A}\u{1D41B}".to_string(), None)
    );
    assert_eq!(transform_text(Node::Operator(Op('+')), TextTransform::Bold), letter('+'));
    assert_eq!(
        transform_text(Node::Row(vec![letter('A'), Node::Text("A".to_string())]), TextTransform::Bold),
        Node::Row(vec![letter('\u{1D400}'), Node::Text("A".to_string())])
    );
}

#[test]
fn merge_runs_of_letters() {
    let merged = merge_single_letters(vec![
        letter('x'),
        Node::SingleLetterIdent('y', Some(MathVariant::Normal)),
        Node::Number("1".to_string()),
        letter('z'),
    ]);
    assert_eq!(
        merged,
        Node::Row(vec![
            Node::MultiLetterIdent("xy".to_string(), None),
            Node::Number("1".to_string()),
            Node::MultiLetterIdent("z".to_string(), None),
        ])
    );
}

#[test]
fn merge_single_result_is_unwrapped() {
    assert_eq!(
        merge_single_letters(vec![letter('s'), letter('i'), letter('n')]),
        Node::MultiLetterIdent("sin".to_string(), None)
    );
    assert_eq!(
        merge_single_letters(vec![Node::Number("3".to_string())]),
        Node::Number("3".to_string())
    );
    assert_eq!(merge_single_letters(Vec::new()), Node::Row(Vec::new()));
}
