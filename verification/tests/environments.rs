use math_core::environments::{Env, NumberedEnvState, NumberingMode};
use math_core::mathml_renderer::symbol::Stretchy;
use math_core::renderer::arena::Arena;
use math_core::renderer::attribute::Style;
use math_core::renderer::node::Node;
use math_core::renderer::table::{Alignment, ArraySpec, ColumnAlignment, ColumnSpec};
use math_core::latex_parser::environments::Env as ParserEnv;

#[test]
fn env_names_round_trip() {
    let all = [
        Env::Array, Env::Subarray, Env::Align, Env::AlignStar, Env::Aligned, Env::Equation,
        Env::EquationStar, Env::Gather, Env::GatherStar, Env::Gathered, Env::MultLine, Env::Cases,
        Env::Matrix, Env::BMatrix, Env::Bmatrix, Env::PMatrix, Env::VMatrix, Env::Vmatrix,
    ];
    for env in all {
        assert_eq!(Env::from_str(env.as_str()), Some(env));
    }
    assert_eq!(Env::from_str("align*"), Some(Env::AlignStar));
    assert_eq!(Env::from_str("Bmatrix"), Some(Env::Bmatrix));
    assert_eq!(Env::from_str("bmatrix"), Some(Env::BMatrix));
    assert_eq!(Env::from_str("xmatrix"), None);
    assert_eq!(Env::from_str(" matrix"), None);
    assert_eq!(Env::from_str(""), None);
}

#[test]
fn env_properties() {
    assert!(Env::Array.needs_string_literal());
    assert!(Env::Subarray.needs_string_literal());
    assert!(!Env::Matrix.needs_string_literal());
    assert!(!Env::Gather.allows_columns());
    assert!(Env::Align.allows_columns());
    assert!(!Env::EquationStar.meaningful_newlines());
    assert!(Env::MultLine.meaningful_newlines());
    assert!(Env::Cases.get_numbered_env_state().is_none());
}

#[test]
fn numbering_all_rows() {
    let mut st = Env::Align.get_numbered_env_state().unwrap();
    assert_eq!(st.mode, NumberingMode::AllByDefault);
    let mut counter = 0u16;
    assert_eq!(st.next_equation_number(&mut counter, false), Ok(Some(1)));
    st.suppress_next_number = true;
    assert_eq!(st.next_equation_number(&mut counter, false), Ok(None));
    assert!(!st.suppress_next_number);
    st.custom_next_number = Some(7);
    assert_eq!(st.next_equation_number(&mut counter, false), Ok(Some(7)));
    assert_eq!(st.custom_next_number, None);
    assert_eq!(st.next_equation_number(&mut counter, true), Ok(Some(2)));
    assert_eq!(counter, 2);
}

#[test]
fn numbering_starred_and_multline() {
    let mut st = Env::GatherStar.get_numbered_env_state().unwrap();
    let mut counter = 5u16;
    assert_eq!(st.next_equation_number(&mut counter, true), Ok(None));
    assert_eq!(counter, 5);
    let mut st = Env::MultLine.get_numbered_env_state().unwrap();
    assert_eq!(st.num_rows, Some(1));
    assert_eq!(st.next_equation_number(&mut counter, false), Ok(None));
    assert_eq!(st.next_equation_number(&mut counter, true), Ok(Some(6)));
}

#[test]
fn numbering_overflow() {
    let mut st = NumberedEnvState {
        mode: NumberingMode::AllByDefault,
        suppress_next_number: false,
        custom_next_number: None,
        num_rows: None,
    };
    let mut counter = u16::MAX;
    assert_eq!(st.next_equation_number(&mut counter, true), Err(()));
    assert_eq!(counter, u16::MAX);
}

#[test]
fn parser_env_names() {
    let all = [
        ParserEnv::Array, ParserEnv::Subarray, ParserEnv::Align, ParserEnv::AlignStar,
        ParserEnv::Aligned, ParserEnv::Cases, ParserEnv::Matrix, ParserEnv::BMatrix,
        ParserEnv::Bmatrix, ParserEnv::PMatrix, ParserEnv::VMatrix, ParserEnv::Vmatrix,
    ];
    for env in all {
        assert_eq!(ParserEnv::from_str(env.as_str()), Some(env));
    }
    assert_eq!(ParserEnv::from_str("equation"), None);
    assert!(ParserEnv::Subarray.needs_string_literal());
    assert!(!ParserEnv::Cases.needs_string_literal());
}

#[test]
fn construct_tables_and_equation_arrays() {
    let arena = Arena::new();
    let one = arena.push(Node::Number("1"));
    let content = arena.push_slice(&[one, &Node::ColumnSeparator, one]);
    assert_eq!(content.len(), 3);
    let node = Env::Align.construct_node(content, None, &arena, Some(4), None);
    assert!(matches!(
        node,
        Node::EquationArray { align: Alignment::Alternating, last_equation_num: Some(4), content: c } if c.len() == 3
    ));
    let node = Env::Gather.construct_node(content, None, &arena, None, None);
    assert!(matches!(node, Node::EquationArray { align: Alignment::Centered, last_equation_num: None, .. }));
    let node = Env::Aligned.construct_node(content, None, &arena, None, None);
    assert!(matches!(node, Node::Table { align: Alignment::Alternating, style: Some(Style::Display), .. }));
    let node = Env::Matrix.construct_node(content, None, &arena, None, None);
    assert!(matches!(node, Node::Table { align: Alignment::Centered, style: Some(Style::Display), .. }));
    let node = Env::MultLine.construct_node(content, None, &arena, Some(2), Some(3));
    assert!(matches!(node, Node::MultLine { num_rows: 3, last_equation_num: Some(2), .. }));
    let node = Env::MultLine.construct_node(content, None, &arena, None, None);
    assert!(matches!(node, Node::MultLine { num_rows: 1, .. }));
}

#[test]
fn construct_fenced_environments() {
    let arena = Arena::new();
    let one = arena.push(Node::Number("1"));
    let content = arena.push_slice(&[one]);
    match Env::Cases.construct_node(content, None, &arena, None, None) {
        Node::Fenced { open: Some(open), close: None, content: table, style: None } => {
            assert_eq!(open.as_char(), '{');
            assert_eq!(open.stretchy, Stretchy::Always);
            assert!(matches!(table, Node::Table { align: Alignment::Cases, style: None, .. }));
        }
        other => panic!("unexpected {:?}", other),
    }
    let cases = [
        (Env::PMatrix, '(', ')', Stretchy::Always),
        (Env::BMatrix, '[', ']', Stretchy::Always),
        (Env::Bmatrix, '{', '}', Stretchy::Always),
        (Env::VMatrix, '|', '|', Stretchy::PrePostfix),
        (Env::Vmatrix, '‖', '‖', Stretchy::PrePostfix),
    ];
    for (env, o, c, st) in cases {
        match env.construct_node(content, None, &arena, None, None) {
            Node::Fenced { open: Some(open), close: Some(close), content: table, style: None } => {
                assert_eq!(open.as_char(), o);
                assert_eq!(close.as_char(), c);
                assert_eq!(open.stretchy, st);
                assert!(matches!(
                    table,
                    Node::Table { align: Alignment::Centered, style: Some(Style::Display), .. }
                ));
            }
            other => panic!("unexpected {:?}", other),
        }
    }
}

#[test]
fn construct_arrays() {
    let arena = Arena::new();
    let content = arena.push_slice(&[]);
    let specs = [ColumnSpec::WithContent(ColumnAlignment::Centered, None)];
    let spec = ArraySpec { beginning_line: None, is_sub: false, column_spec: &specs };
    let node = Env::Array.construct_node(content, Some(&spec), &arena, None, None);
    assert!(matches!(node, Node::Array { style: None, array_spec, .. } if array_spec.column_spec.len() == 1));
    let node = Env::Subarray.construct_node(content, Some(&spec), &arena, None, None);
    assert!(matches!(node, Node::Array { style: Some(Style::Script), .. }));
}
