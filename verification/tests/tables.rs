use math_core::mathml_renderer::table::{
    Alignment as MmlAlignment, ArraySpec as MmlArraySpec, ColumnAlignment as MmlColumnAlignment,
    ColumnGenerator as MmlColumnGenerator, ColumnSpec as MmlColumnSpec, LineType as MmlLineType,
};
use math_core::renderer::table::{
    Alignment, ArraySpec, ColumnAlignment, ColumnGenerator, ColumnSpec, LineType,
};

#[test]
fn predefined_cases_columns() {
    let mut gen = MmlColumnGenerator::new_predefined(MmlAlignment::Cases);
    assert_eq!(
        gen.next().unwrap().to_string(),
        "<mtd style=\"text-align: -webkit-left;text-align: -moz-left;padding-right: 0;\">"
    );
    assert_eq!(
        gen.next().unwrap().to_string(),
        "<mtd style=\"text-align: -webkit-left;text-align: -moz-left;padding-right: 0;padding-left:1em;\">"
    );
    gen.reset_columns();
    assert_eq!(
        gen.next().unwrap().to_string(),
        "<mtd style=\"text-align: -webkit-left;text-align: -moz-left;padding-right: 0;\">"
    );
}

#[test]
fn predefined_centered_never_ends() {
    let mut gen = MmlColumnGenerator::new_predefined(MmlAlignment::Centered);
    for _ in 0..5 {
        assert_eq!(gen.next().unwrap().to_string(), "<mtd>");
    }
}

#[test]
fn custom_columns_end_and_lines() {
    let specs = [
        MmlColumnSpec::WithContent(MmlColumnAlignment::RightJustified, None),
        MmlColumnSpec::OnlyLine(MmlLineType::Solid),
        MmlColumnSpec::WithContent(MmlColumnAlignment::Centered, Some(MmlLineType::Solid)),
    ];
    let array = MmlArraySpec { begins_with_line: false, column_spec: &specs };
    let mut gen = MmlColumnGenerator::new_custom(&array);
    assert_eq!(
        gen.next().unwrap().to_string(),
        "<mtd style=\"text-align: -webkit-right;text-align: -moz-right;\">"
    );
    assert_eq!(
        gen.next().unwrap().to_string(),
        "<mtd style=\"border-right: 1px solid black;padding-left: 0.2em;padding-right: 0.2em;\"></mtd><mtd>"
    );
    // The line-only column took two positions, so the third entry is skipped.
    assert!(gen.next().is_none());
}

#[test]
fn write_next_mtd_alternating() {
    let mut gen = ColumnGenerator::new_predefined(Alignment::Alternating);
    let mut s = String::new();
    gen.write_next_mtd(&mut s, 0);
    assert_eq!(s, "<mtd style=\"text-align: right;justify-items: end;padding-right: 0;\">");
    s.clear();
    gen.write_next_mtd(&mut s, 1);
    assert_eq!(s, "\n    <mtd style=\"text-align: left;justify-items: start;padding-left: 0;\">");
}

#[test]
fn write_next_mtd_cases_and_centered() {
    let mut gen = ColumnGenerator::new_predefined(Alignment::Cases);
    let mut s = String::new();
    gen.write_next_mtd(&mut s, 0);
    gen.write_next_mtd(&mut s, 0);
    assert_eq!(
        s,
        "<mtd style=\"text-align: left;justify-items: start;padding-right: 0;\"><mtd style=\"text-align: left;justify-items: start;padding-right: 0;padding-left:1em;\">"
    );
    let mut gen = ColumnGenerator::new_predefined(Alignment::Centered);
    let mut s = String::new();
    gen.write_next_mtd(&mut s, 0);
    assert_eq!(s, "<mtd>");
}

#[test]
fn write_next_mtd_custom_with_lines() {
    let specs = [
        ColumnSpec::OnlyLine(LineType::Solid),
        ColumnSpec::WithContent(ColumnAlignment::LeftJustified, None),
    ];
    let array = ArraySpec { beginning_line: None, is_sub: false, column_spec: &specs };
    let mut gen = ColumnGenerator::new_custom(&array);
    let mut s = String::new();
    gen.write_next_mtd(&mut s, 1);
    assert_eq!(
        s,
        "\n    <mtd style=\"border-right: 0.05em solid currentcolor;padding-left: 0.1em;padding-right: 0.1em;\"></mtd>\n    <mtd style=\"text-align: left;justify-items: start;\">"
    );
    // Past the end, columns are centred.
    s.clear();
    gen.write_next_mtd(&mut s, 0);
    assert_eq!(s, "<mtd>");
}

#[test]
fn write_next_mtd_subarray() {
    let specs = [
        ColumnSpec::WithContent(ColumnAlignment::Centered, None),
        ColumnSpec::WithContent(ColumnAlignment::RightJustified, Some(LineType::Dashed)),
    ];
    let array = ArraySpec { beginning_line: None, is_sub: true, column_spec: &specs };
    let mut gen = ColumnGenerator::new_custom(&array);
    let mut s = String::new();
    gen.write_next_mtd(&mut s, 0);
    assert_eq!(s, "<mtd style=\"padding-top: 0;padding-bottom: 0;\">");
    s.clear();
    gen.write_next_mtd(&mut s, 0);
    assert_eq!(
        s,
        "<mtd style=\"text-align: right;justify-items: end;border-right: 0.05em dashed currentcolor;padding-top: 0;padding-bottom: 0;\">"
    );
}

#[test]
fn custom_columns_without_lines_run_out_after_each_entry() {
    let specs = [
        MmlColumnSpec::WithContent(MmlColumnAlignment::LeftJustified, None),
        MmlColumnSpec::WithContent(MmlColumnAlignment::Centered, None),
        MmlColumnSpec::WithContent(MmlColumnAlignment::RightJustified, None),
    ];
    let array = MmlArraySpec { begins_with_line: false, column_spec: &specs };
    let mut gen = MmlColumnGenerator::new_custom(&array);
    for _ in 0..specs.len() {
        assert!(gen.next().is_some());
    }
    assert!(gen.next().is_none());
}

#[test]
fn next_mtd_without_indent_is_one_cell_line() {
    let specs = [
        ColumnSpec::OnlyLine(LineType::Dashed),
        ColumnSpec::OnlyLine(LineType::Solid),
        ColumnSpec::WithContent(ColumnAlignment::LeftJustified, Some(LineType::Solid)),
    ];
    let array = ArraySpec { beginning_line: None, is_sub: true, column_spec: &specs };
    for mut gen in [
        ColumnGenerator::new_custom(&array),
        ColumnGenerator::new_predefined(Alignment::Cases),
        ColumnGenerator::new_predefined(Alignment::Centered),
    ] {
        for _ in 0..4 {
            let mut s = String::from("<mtr>");
            gen.write_next_mtd(&mut s, 0);
            assert!(s[5..].starts_with("<mtd"));
            assert!(!s.contains('\n'));
        }
    }
}

#[test]
fn reset_returns_to_the_first_column() {
    let mut used = ColumnGenerator::new_predefined(Alignment::Alternating);
    let mut fresh = ColumnGenerator::new_predefined(Alignment::Alternating);
    let mut s = String::new();
    used.write_next_mtd(&mut s, 1);
    used.write_next_mtd(&mut s, 1);
    used.write_next_mtd(&mut s, 1);
    used.reset_columns();
    for _ in 0..3 {
        let mut a = String::new();
        let mut b = String::new();
        used.write_next_mtd(&mut a, 2);
        fresh.write_next_mtd(&mut b, 2);
        assert_eq!(a, b);
    }
}
