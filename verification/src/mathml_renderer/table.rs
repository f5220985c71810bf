//! Column alignment of tables: the opening `<mtd>` tag of each column.
use vstd::prelude::*;

use super::fmt::StrJoiner;

verus! {

#[derive(Debug, Clone, Copy, PartialEq, Eq, Structural)]
pub enum ColumnAlignment {
    LeftJustified,
    Centered,
    RightJustified,
}

#[derive(Debug, Clone, Copy, PartialEq, Eq, Structural)]
pub enum LineType {
    Solid,
    Dotted,
}

#[derive(Debug, Clone, Copy, PartialEq, Eq, Structural)]
pub enum ColumnSpec {
    WithContent(ColumnAlignment, Option<LineType>),
    OnlyLine(LineType),
}

/// A custom column specification, as given to an `array` environment.
#[derive(Debug)]
pub struct ArraySpec<'arena> {
    pub begins_with_line: bool,
    pub column_spec: &'arena [ColumnSpec],
}

#[derive(Debug, Clone, Copy, PartialEq, Eq, Structural)]
pub enum Alignment {
    Centered,
    Cases,
    Alternating,
}

/// Where the alignment of the columns comes from.
pub enum AlignmentType<'arena> {
    Predefined(Alignment),
    Custom(&'arena ArraySpec<'arena>),
}

pub const MTD_OPEN_STYLE: &'static str = "<mtd style=\"";
pub const MTD_CLOSE_STYLE: &'static str = "\">";
pub const LEFT_ALIGN: &'static str = "text-align: -webkit-left;text-align: -moz-left;";
pub const RIGHT_ALIGN: &'static str = "text-align: -webkit-right;text-align: -moz-right;";
pub const PADDING_RIGHT_ZERO: &'static str = "padding-right: 0;";
pub const PADDING_LEFT_ZERO: &'static str = "padding-left: 0;";
pub const PADDING_LEFT_ONE_EM: &'static str = "padding-left:1em;";
pub const BORDER_RIGHT: &'static str = "border-right: 1px solid black;";
pub const LINE_PADDING: &'static str = "padding-left: 0.2em;padding-right: 0.2em;";
pub const LINE_CELL_END: &'static str = "\"></mtd><mtd>";
pub const EMPTY_LINE_CELL: &'static str = "<mtd></mtd><mtd>";
pub const SIMPLE_CENTERED: &'static str = "<mtd>";

/// The pieces of the opening tag of column `idx` under a predefined alignment:
/// `Cases` aligns left (with extra left padding on odd columns), `Centered`
/// uses a plain `<mtd>`, and `Alternating` aligns even columns right and odd
/// columns left.
pub open spec fn predefined_cell(align: Alignment, idx: nat) -> Seq<&'static str> {
    match align {
        Alignment::Cases => if idx % 2 == 0 {
            seq![MTD_OPEN_STYLE, LEFT_ALIGN, PADDING_RIGHT_ZERO, MTD_CLOSE_STYLE]
        } else {
            seq![MTD_OPEN_STYLE, LEFT_ALIGN, PADDING_RIGHT_ZERO, PADDING_LEFT_ONE_EM, MTD_CLOSE_STYLE]
        },
        Alignment::Centered => seq![SIMPLE_CENTERED],
        Alignment::Alternating => if idx % 2 == 0 {
            seq![MTD_OPEN_STYLE, RIGHT_ALIGN, PADDING_RIGHT_ZERO, MTD_CLOSE_STYLE]
        } else {
            seq![MTD_OPEN_STYLE, LEFT_ALIGN, PADDING_LEFT_ZERO, MTD_CLOSE_STYLE]
        },
    }
}

/// The pieces of the opening tag for one entry of a custom column specification.
/// A column that is only a line produces an empty cell and opens the next one.
pub open spec fn custom_cell(spec: ColumnSpec) -> Seq<&'static str> {
    match spec {
        ColumnSpec::WithContent(ColumnAlignment::LeftJustified, _) => seq![
            MTD_OPEN_STYLE,
            LEFT_ALIGN,
            MTD_CLOSE_STYLE,
        ],
        ColumnSpec::WithContent(ColumnAlignment::Centered, line) => if line == Some(
            LineType::Solid,
        ) {
            seq![MTD_OPEN_STYLE, BORDER_RIGHT, MTD_CLOSE_STYLE]
        } else {
            seq![SIMPLE_CENTERED]
        },
        ColumnSpec::WithContent(ColumnAlignment::RightJustified, _) => seq![
            MTD_OPEN_STYLE,
            RIGHT_ALIGN,
            MTD_CLOSE_STYLE,
        ],
        ColumnSpec::OnlyLine(line) => if line == LineType::Solid {
            seq![MTD_OPEN_STYLE, BORDER_RIGHT, LINE_PADDING, LINE_CELL_END]
        } else {
            seq![EMPTY_LINE_CELL]
        },
    }
}

/// Produces the opening `<mtd>` tag of each successive column.
pub struct ColumnGenerator<'arena> {
    typ: AlignmentType<'arena>,
    column_idx: usize,
}

impl<'arena> ColumnGenerator<'arena> {
    /// Where the alignment comes from.
    pub closed spec fn kind(&self) -> AlignmentType<'arena> {
        self.typ
    }

    /// The index of the next column.
    pub closed spec fn column_index(&self) -> nat {
        self.column_idx as nat
    }

    pub fn new_predefined(align: Alignment) -> (g: Self)
        ensures
            g.kind() == AlignmentType::<'arena>::Predefined(align),
            g.column_index() == 0,
    {
        ColumnGenerator { typ: AlignmentType::Predefined(align), column_idx: 0 }
    }

    pub fn new_custom(array_spec: &'arena ArraySpec<'arena>) -> (g: Self)
        ensures
            g.kind() == AlignmentType::<'arena>::Custom(array_spec),
            g.column_index() == 0,
    {
        ColumnGenerator { typ: AlignmentType::Custom(array_spec), column_idx: 0 }
    }

    /// Starts again at the first column.
    pub fn reset_columns(&mut self)
        ensures
            final(self).kind() == old(self).kind(),
            final(self).column_index() == 0,
    {
        self.column_idx = 0;
    }

    /// The opening tag of the next column. A predefined alignment never runs out
    /// of columns; a custom one gives `None` past its last column. A column that
    /// is only a line takes up two column positions.
    pub fn next(&mut self) -> (r: Option<StrJoiner<'static>>)
        requires
            old(self).column_index() + 2 <= usize::MAX,
        ensures
            final(self).kind() == old(self).kind(),
            r is Some <==> gives_column(old(self).kind(), old(self).column_index()),
            match old(self).kind() {
                AlignmentType::Predefined(align) => {
                    &&& final(self).column_index() == old(self).column_index() + 1
                    &&& r matches Some(j) && j.parts() == predefined_cell(
                        align,
                        old(self).column_index(),
                    )
                },
                AlignmentType::Custom(spec) => {
                    let idx = old(self).column_index();
                    if idx < spec.column_spec@.len() {
                        &&& r matches Some(j) && j.parts() == custom_cell(spec.column_spec@[idx as int])
                        &&& final(self).column_index() == custom_next_index(spec.column_spec@, idx)
                    } else {
                        &&& r is None
                        &&& final(self).column_index() == custom_next_index(spec.column_spec@, idx)
                    }
                },
            },
    {
        let column_idx = self.column_idx;
        self.column_idx += 1;
        match self.typ {
            AlignmentType::Predefined(align) => {
                let is_even = column_idx % 2 == 0;
                match align {
                    Alignment::Cases => {
                        if is_even {
                            Some(
                                StrJoiner::from_slice(
                                    &[MTD_OPEN_STYLE, LEFT_ALIGN, PADDING_RIGHT_ZERO, MTD_CLOSE_STYLE],
                                ),
                            )
                        } else {
                            Some(
                                StrJoiner::from_slice(
                                    &[
                                        MTD_OPEN_STYLE,
                                        LEFT_ALIGN,
                                        PADDING_RIGHT_ZERO,
                                        PADDING_LEFT_ONE_EM,
                                        MTD_CLOSE_STYLE,
                                    ],
                                ),
                            )
                        }
                    },
                    Alignment::Centered => Some(StrJoiner::from_slice(&[SIMPLE_CENTERED])),
                    Alignment::Alternating => {
                        if is_even {
                            Some(
                                StrJoiner::from_slice(
                                    &[MTD_OPEN_STYLE, RIGHT_ALIGN, PADDING_RIGHT_ZERO, MTD_CLOSE_STYLE],
                                ),
                            )
                        } else {
                            Some(
                                StrJoiner::from_slice(
                                    &[MTD_OPEN_STYLE, LEFT_ALIGN, PADDING_LEFT_ZERO, MTD_CLOSE_STYLE],
                                ),
                            )
                        }
                    },
                }
            },
            AlignmentType::Custom(array_spec) => {
                if column_idx >= array_spec.column_spec.len() {
                    return None;
                }
                let column_spec = array_spec.column_spec[column_idx];
                match column_spec {
                    ColumnSpec::WithContent(ColumnAlignment::LeftJustified, _lt) => {
                        Some(StrJoiner::from_slice(&[MTD_OPEN_STYLE, LEFT_ALIGN, MTD_CLOSE_STYLE]))
                    },
                    ColumnSpec::WithContent(ColumnAlignment::Centered, line_type) => {
                        if matches!(line_type, Some(LineType::Solid)) {
                            Some(StrJoiner::from_slice(&[MTD_OPEN_STYLE, BORDER_RIGHT, MTD_CLOSE_STYLE]))
                        } else {
                            Some(StrJoiner::from_slice(&[SIMPLE_CENTERED]))
                        }
                    },
                    ColumnSpec::WithContent(ColumnAlignment::RightJustified, _lt) => {
                        Some(StrJoiner::from_slice(&[MTD_OPEN_STYLE, RIGHT_ALIGN, MTD_CLOSE_STYLE]))
                    },
                    ColumnSpec::OnlyLine(line_type) => {
                        self.column_idx += 1;
                        if matches!(line_type, LineType::Solid) {
                            Some(
                                StrJoiner::from_slice(
                                    &[MTD_OPEN_STYLE, BORDER_RIGHT, LINE_PADDING, LINE_CELL_END],
                                ),
                            )
                        } else {
                            Some(StrJoiner::from_slice(&[EMPTY_LINE_CELL]))
                        }
                    },
                }
            },
        }
    }
}

/// The column index after `next` on a custom generator at `idx`: a line-only
/// entry is skipped together with the column after it.
pub open spec fn custom_next_index(specs: Seq<ColumnSpec>, idx: nat) -> nat {
    if idx < specs.len() && specs[idx as int] is OnlyLine {
        idx + 2
    } else {
        idx + 1
    }
}

/// The column index of a new custom generator after `k` calls of `next`.
pub open spec fn custom_index_after(specs: Seq<ColumnSpec>, k: nat) -> nat
    decreases k,
{
    if k == 0 {
        0
    } else {
        custom_next_index(specs, custom_index_after(specs, (k - 1) as nat))
    }
}

/// Whether `next` gives a column for a generator of kind `kind` at column
/// `idx`: a predefined alignment always does, a custom one while entries are
/// left.
pub open spec fn gives_column<'arena>(kind: AlignmentType<'arena>, idx: nat) -> bool {
    match kind {
        AlignmentType::Predefined(_) => true,
        AlignmentType::Custom(spec) => idx < spec.column_spec@.len(),
    }
}

/// Without line-only entries, the `k`-th call of `next` on a new custom
/// generator reads entry `k`: the first `specs.len()` calls give a column, and
/// the next one gives none.
pub proof fn lemma_custom_columns_without_lines(specs: Seq<ColumnSpec>, k: nat)
    requires
        forall|i: int| 0 <= i < specs.len() ==> !(#[trigger] specs[i] is OnlyLine),
    ensures
        custom_index_after(specs, k) == k,
        (custom_index_after(specs, k) < specs.len()) <==> k < specs.len(),
    decreases k,
{
    if k > 0 {
        lemma_custom_columns_without_lines(specs, (k - 1) as nat);
    }
}

/// A predefined alignment never runs out of columns.
pub proof fn lemma_predefined_columns_never_end<'arena>(align: Alignment, idx: nat)
    ensures
        gives_column(AlignmentType::<'arena>::Predefined(align), idx),
{
}

impl<'arena> ColumnGenerator<'arena> {
    /// A generator is determined by its kind and its column: after
    /// `reset_columns`, a generator is the one its constructor made.
    pub proof fn lemma_same_kind_and_column(g1: Self, g2: Self)
        requires
            g1.kind() == g2.kind(),
            g1.column_index() == g2.column_index(),
        ensures
            g1 == g2,
    {
    }
}

} // verus!
