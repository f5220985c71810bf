use math_core::renderer::arena::Arena;
use math_core::renderer::table::ColumnAlignment;
use math_core::specifications::{parse_column_specification, split_length_specification, LaTeXUnit};

#[test]
fn invalid_column_specs() {
    let arena = Arena::new();
    assert_eq!(parse_column_specification("", &arena), None);
    assert_eq!(parse_column_specification("|", &arena), None);
    assert_eq!(parse_column_specification("||", &arena), None);
    assert_eq!(parse_column_specification("x", &arena), None);
    assert_eq!(parse_column_specification("x|c", &arena), None);
    assert_eq!(parse_column_specification("c|x", &arena), None);
    assert_eq!(parse_column_specification("cx", &arena), None);
}

#[test]
fn column_parse_simple() {
    let arena = Arena::new();
    let spec = parse_column_specification("l|c|r", &arena).unwrap();
    assert_eq!(spec.begins_with_line, false);
    assert_eq!(spec.column_spec.len(), 3);
    assert_eq!(
        spec.column_spec[0].alignment,
        Some(ColumnAlignment::LeftJustified)
    );
    assert_eq!(spec.column_spec[0].with_line, true);
    assert_eq!(
        spec.column_spec[1].alignment,
        Some(ColumnAlignment::Centered)
    );
    assert_eq!(spec.column_spec[1].with_line, true);
    assert_eq!(
        spec.column_spec[2].alignment,
        Some(ColumnAlignment::RightJustified)
    );
    assert_eq!(spec.column_spec[2].with_line, false);
}

#[test]
fn column_parse_line_at_beginning() {
    let arena = Arena::new();
    let spec = parse_column_specification("|ccc", &arena).unwrap();
    assert_eq!(spec.begins_with_line, true);
    assert_eq!(spec.column_spec.len(), 3);
    assert_eq!(
        spec.column_spec[0].alignment,
        Some(ColumnAlignment::Centered)
    );
    assert_eq!(spec.column_spec[0].with_line, false);
    assert_eq!(
        spec.column_spec[1].alignment,
        Some(ColumnAlignment::Centered)
    );
    assert_eq!(spec.column_spec[1].with_line, false);
    assert_eq!(
        spec.column_spec[2].alignment,
        Some(ColumnAlignment::Centered)
    );
    assert_eq!(spec.column_spec[2].with_line, false);
}

#[test]
fn column_parse_with_spaces() {
    let arena = Arena::new();
    let spec = parse_column_specification(" c   | |   c|    | |      c ", &arena).unwrap();
    assert_eq!(spec.begins_with_line, false);
    assert_eq!(spec.column_spec.len(), 6);
    assert_eq!(
        spec.column_spec[0].alignment,
        Some(ColumnAlignment::Centered)
    );
    assert_eq!(spec.column_spec[0].with_line, true);
    assert_eq!(spec.column_spec[1].alignment, None);
    assert_eq!(spec.column_spec[1].with_line, true);
    assert_eq!(
        spec.column_spec[2].alignment,
        Some(ColumnAlignment::Centered)
    );
    assert_eq!(spec.column_spec[2].with_line, true);
    assert_eq!(spec.column_spec[3].alignment, None);
    assert_eq!(spec.column_spec[3].with_line, true);
    assert_eq!(spec.column_spec[4].alignment, None);
    assert_eq!(spec.column_spec[4].with_line, true);
    assert_eq!(
        spec.column_spec[5].alignment,
        Some(ColumnAlignment::Centered)
    );
    assert_eq!(spec.column_spec[5].with_line, false);
}

#[test]
fn column_spec_rejects_non_ascii() {
    let arena = Arena::new();
    assert_eq!(parse_column_specification("c|é", &arena), None);
}

#[test]
fn column_spec_line_after_whitespace_at_start() {
    let arena = Arena::new();
    let spec = parse_column_specification("  |r", &arena).unwrap();
    assert_eq!(spec.begins_with_line, true);
    assert_eq!(spec.column_spec.len(), 1);
    assert_eq!(spec.column_spec[0].alignment, Some(ColumnAlignment::RightJustified));
    assert_eq!(spec.column_spec[0].with_line, false);
}

#[test]
fn latex_units_ignore_case() {
    assert_eq!(LaTeXUnit::try_from("pt"), Ok(LaTeXUnit::Pt));
    assert_eq!(LaTeXUnit::try_from("PT"), Ok(LaTeXUnit::Pt));
    assert_eq!(LaTeXUnit::try_from("Mm"), Ok(LaTeXUnit::Mm));
    assert_eq!(LaTeXUnit::try_from("cM"), Ok(LaTeXUnit::Cm));
    assert_eq!(LaTeXUnit::try_from("in"), Ok(LaTeXUnit::In));
    assert_eq!(LaTeXUnit::try_from("ex"), Ok(LaTeXUnit::Ex));
    assert_eq!(LaTeXUnit::try_from("EM"), Ok(LaTeXUnit::Em));
    assert_eq!(LaTeXUnit::try_from("mu"), Ok(LaTeXUnit::Mu));
    assert_eq!(LaTeXUnit::try_from("sP"), Ok(LaTeXUnit::Sp));
}

#[test]
fn latex_units_reject_others() {
    assert_eq!(LaTeXUnit::try_from(""), Err(()));
    assert_eq!(LaTeXUnit::try_from("p"), Err(()));
    assert_eq!(LaTeXUnit::try_from("pts"), Err(()));
    assert_eq!(LaTeXUnit::try_from("px"), Err(()));
    assert_eq!(LaTeXUnit::try_from("p{"), Err(()));
}

#[test]
fn split_length_specifications() {
    assert_eq!(split_length_specification("1.5em"), Some(("1.5", LaTeXUnit::Em)));
    assert_eq!(split_length_specification("3 PT"), Some(("3 ", LaTeXUnit::Pt)));
    assert_eq!(split_length_specification("10Mu"), Some(("10", LaTeXUnit::Mu)));
    assert_eq!(split_length_specification("em"), Some(("", LaTeXUnit::Em)));
    assert_eq!(split_length_specification("e"), None);
    assert_eq!(split_length_specification(""), None);
    assert_eq!(split_length_specification("1.5xx"), None);
    assert_eq!(split_length_specification("1é"), None);
    assert_eq!(split_length_specification("-2.25sp"), Some(("-2.25", LaTeXUnit::Sp)));
}
