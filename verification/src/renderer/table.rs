//! Tables: column alignment and the opening `<mtd>` tag of each column.
use vstd::prelude::*;

use crate::mathml_renderer::fmt::{line_and_indent, new_line_and_indent};

verus! {

#[derive(Debug, Clone, Copy, PartialEq, Eq, Structural)]
pub enum ColumnAlignment {
    LeftJustified,
    Centered,
    RightJustified,
}

#[derive(Debug, Clone, Copy, PartialEq, Eq, Structural)]
pub enum LineType {
    Solid,
    Dashed,
}

#[derive(Debug, Clone, Copy, PartialEq, Eq, Structural)]
pub enum ColumnSpec {
    WithContent(ColumnAlignment, Option<LineType>),
    OnlyLine(LineType),
}

/// A custom column specification, as given to an `array` or `subarray` environment.
#[derive(Debug)]
pub struct ArraySpec<'arena> {
    pub beginning_line: Option<LineType>,
    pub is_sub: bool,
    pub column_spec: &'arena [ColumnSpec],
}

#[derive(Debug, Clone, Copy, PartialEq, Eq, Structural)]
pub enum Alignment {
    Centered,
    Cases,
    Alternating,
}

/// Where the alignment of the columns comes from.
pub enum AlignmentType<'arena> {
    Predefined(Alignment),
    Custom(&'arena ArraySpec<'arena>),
}

pub const MTD_OPEN_STYLE: &'static str = "<mtd style=\"";
pub const MTD_CLOSE_STYLE: &'static str = "\">";
pub const LEFT_ALIGN: &'static str = "text-align: left;justify-items: start;";
pub const RIGHT_ALIGN: &'static str = "text-align: right;justify-items: end;";
pub const PADDING_RIGHT_ZERO: &'static str = "padding-right: 0;";
pub const PADDING_LEFT_ZERO: &'static str = "padding-left: 0;";
pub const PADDING_LEFT_ONE_EM: &'static str = "padding-left:1em;";
pub const PADDING_TOP_BOTTOM_ZERO: &'static str = "padding-top: 0;padding-bottom: 0;";
pub const BORDER_RIGHT_SOLID: &'static str = "border-right: 0.05em solid currentcolor;";
pub const BORDER_RIGHT_DASHED: &'static str = "border-right: 0.05em dashed currentcolor;";
pub const LINE_PADDING: &'static str = "padding-left: 0.1em;padding-right: 0.1em;";
pub const EMPTY_CELL_END: &'static str = "\"></mtd>";
pub const SIMPLE_CENTERED: &'static str = "<mtd>";

/// The opening tag of column `idx` under a predefined alignment.
pub open spec fn predefined_mtd(align: Alignment, idx: nat) -> Seq<char> {
    match align {
        Alignment::Cases => MTD_OPEN_STYLE@ + LEFT_ALIGN@ + PADDING_RIGHT_ZERO@ + (if idx % 2 == 0 {
            Seq::empty()
        } else {
            PADDING_LEFT_ONE_EM@
        }) + MTD_CLOSE_STYLE@,
        Alignment::Centered => SIMPLE_CENTERED@,
        Alignment::Alternating => MTD_OPEN_STYLE@ + (if idx % 2 == 0 {
            RIGHT_ALIGN@ + PADDING_RIGHT_ZERO@
        } else {
            LEFT_ALIGN@ + PADDING_LEFT_ZERO@
        }) + MTD_CLOSE_STYLE@,
    }
}

/// The border style of a vertical line.
pub open spec fn border(line: LineType) -> Seq<char> {
    match line {
        LineType::Solid => BORDER_RIGHT_SOLID@,
        LineType::Dashed => BORDER_RIGHT_DASHED@,
    }
}

/// Extra padding of the cells of a `subarray`.
pub open spec fn sub_padding(is_sub: bool) -> Seq<char> {
    if is_sub {
        PADDING_TOP_BOTTOM_ZERO@
    } else {
        Seq::empty()
    }
}

/// The empty cell that draws a vertical line of type `line`.
pub open spec fn line_mtd(line: LineType, is_sub: bool) -> Seq<char> {
    MTD_OPEN_STYLE@ + border(line) + sub_padding(is_sub) + LINE_PADDING@ + EMPTY_CELL_END@
}

/// The opening tag of a content column; a centred column without a line
/// outside a `subarray` is a plain `<mtd>`.
pub open spec fn content_mtd(spec: ColumnSpec, is_sub: bool) -> Seq<char> {
    match spec {
        ColumnSpec::WithContent(alignment, line) => if alignment == ColumnAlignment::Centered
            && line is None && !is_sub {
            SIMPLE_CENTERED@
        } else {
            MTD_OPEN_STYLE@ + (match alignment {
                ColumnAlignment::LeftJustified => LEFT_ALIGN@,
                ColumnAlignment::Centered => Seq::empty(),
                ColumnAlignment::RightJustified => RIGHT_ALIGN@,
            }) + (match line {
                Some(l) => border(l),
                None => Seq::empty(),
            }) + sub_padding(is_sub) + MTD_CLOSE_STYLE@
        },
        ColumnSpec::OnlyLine(_) => Seq::empty(),
    }
}

/// The entry of the column specification at `idx`; past the end, a centred
/// column without lines.
pub open spec fn column_at(specs: Seq<ColumnSpec>, idx: nat) -> ColumnSpec {
    if idx < specs.len() {
        specs[idx as int]
    } else {
        ColumnSpec::WithContent(ColumnAlignment::Centered, None)
    }
}

/// What writing the next column from `idx` on appends, and the index after it:
/// every line-only entry becomes an empty line cell on a line of its own,
/// followed by the opening tag of the first content entry.
pub open spec fn custom_mtd(specs: Seq<ColumnSpec>, is_sub: bool, idx: nat, indent: nat) -> (
    Seq<char>,
    nat,
)
    decreases specs.len() - idx,
{
    match column_at(specs, idx) {
        ColumnSpec::OnlyLine(line) => if idx < specs.len() {
            let (rest, next) = custom_mtd(specs, is_sub, idx + 1, indent);
            (line_mtd(line, is_sub) + line_and_indent(indent) + rest, next)
        } else {
            (Seq::empty(), idx + 1)
        },
        entry => (content_mtd(entry, is_sub), idx + 1),
    }
}

/// What writing the next column appends after the line break, and the column
/// index after it, for a generator of kind `kind` at column `idx`.
pub open spec fn next_mtd<'arena>(kind: AlignmentType<'arena>, idx: nat, indent: nat) -> (Seq<char>, nat) {
    match kind {
        AlignmentType::Predefined(align) => (predefined_mtd(align, idx), idx + 1),
        AlignmentType::Custom(spec) => custom_mtd(spec.column_spec@, spec.is_sub, idx, indent),
    }
}

/// Produces the opening `<mtd>` tag of each successive column.
pub struct ColumnGenerator<'arena> {
    typ: AlignmentType<'arena>,
    column_idx: usize,
}

impl<'arena> ColumnGenerator<'arena> {
    /// Where the alignment comes from.
    pub closed spec fn kind(&self) -> AlignmentType<'arena> {
        self.typ
    }

    /// The index of the next column.
    pub closed spec fn column_index(&self) -> nat {
        self.column_idx as nat
    }

    pub fn new_predefined(align: Alignment) -> (g: Self)
        ensures
            g.kind() == AlignmentType::<'arena>::Predefined(align),
            g.column_index() == 0,
    {
        ColumnGenerator { typ: AlignmentType::Predefined(align), column_idx: 0 }
    }

    pub fn new_custom(array_spec: &'arena ArraySpec<'arena>) -> (g: Self)
        ensures
            g.kind() == AlignmentType::<'arena>::Custom(array_spec),
            g.column_index() == 0,
    {
        ColumnGenerator { typ: AlignmentType::Custom(array_spec), column_idx: 0 }
    }

    /// Starts again at the first column.
    pub fn reset_columns(&mut self)
        ensures
            final(self).kind() == old(self).kind(),
            final(self).column_index() == 0,
    {
        self.column_idx = 0;
    }

    /// Starts a new line indented by `indent_num` levels and writes the opening
    /// tag of the next column.
    pub fn write_next_mtd(&mut self, s: &mut String, indent_num: usize)
        requires
            old(self).column_index() + 2 <= usize::MAX,
            old(self).kind() matches AlignmentType::Custom(spec) ==> spec.column_spec@.len() + 2
                <= usize::MAX,
        ensures
            final(self).kind() == old(self).kind(),
            final(s)@ == old(s)@ + line_and_indent(indent_num as nat) + next_mtd(
                old(self).kind(),
                old(self).column_index(),
                indent_num as nat,
            ).0,
            final(self).column_index() == next_mtd(
                old(self).kind(),
                old(self).column_index(),
                indent_num as nat,
            ).1,
    {
        new_line_and_indent(s, indent_num);
        let column_idx = self.column_idx;
        self.column_idx += 1;
        match self.typ {
            AlignmentType::Predefined(align) => {
                write_predefined_mtd(s, align, column_idx);
            },
            AlignmentType::Custom(array_spec) => {
                let ghost specs = array_spec.column_spec@;
                let ghost start = s@;
                let mut column_spec = get_column(array_spec.column_spec, column_idx);
                let ghost mut written: Seq<char> = Seq::empty();
                while matches!(column_spec, ColumnSpec::OnlyLine(_))
                    invariant
                        specs == array_spec.column_spec@,
                        specs.len() + 2 <= usize::MAX,
                        self.typ == AlignmentType::Custom(array_spec),
                        column_idx < self.column_idx,
                        column_spec == column_at(specs, (self.column_idx - 1) as nat),
                        column_spec is OnlyLine ==> self.column_idx <= specs.len(),
                        s@ == start + written,
                        ({
                            let (whole, next) = custom_mtd(specs, array_spec.is_sub, column_idx as nat, indent_num as nat);
                            let (rest, next2) = custom_mtd(specs, array_spec.is_sub, (self.column_idx - 1) as nat, indent_num as nat);
                            whole == written + rest && next == next2
                        }),
                    decreases specs.len() + 1 - self.column_idx,
                {
                    let ghost idx = (self.column_idx - 1) as nat;
                    let line_type = match column_spec {
                        ColumnSpec::OnlyLine(line) => line,
                        ColumnSpec::WithContent(..) => LineType::Solid,
                    };
                    column_spec = get_column(array_spec.column_spec, self.column_idx);
                    self.column_idx += 1;
                    write_line_mtd(s, line_type, array_spec.is_sub);
                    new_line_and_indent(s, indent_num);
                    proof {
                        let piece = line_mtd(line_type, array_spec.is_sub) + line_and_indent(indent_num as nat);
                        written = written + piece;
                        let (rest, next2) = custom_mtd(specs, array_spec.is_sub, idx, indent_num as nat);
                        let (rest2, next3) = custom_mtd(specs, array_spec.is_sub, idx + 1, indent_num as nat);
                        assert(rest == piece + rest2);
                    }
                }
                write_content_mtd(s, column_spec, array_spec.is_sub);
            },
        };
    }
}

/// Appends the opening tag of column `idx` under a predefined alignment.
fn write_predefined_mtd(s: &mut String, align: Alignment, idx: usize)
    ensures
        final(s)@ == old(s)@ + predefined_mtd(align, idx as nat),
{
    let is_even = idx % 2 == 0;
    match align {
        Alignment::Cases => {
            s.push_str(MTD_OPEN_STYLE);
            s.push_str(LEFT_ALIGN);
            s.push_str(PADDING_RIGHT_ZERO);
            if !is_even {
                s.push_str(PADDING_LEFT_ONE_EM);
            }
            s.push_str(MTD_CLOSE_STYLE);
        },
        Alignment::Centered => {
            s.push_str(SIMPLE_CENTERED);
        },
        Alignment::Alternating => {
            s.push_str(MTD_OPEN_STYLE);
            if is_even {
                s.push_str(RIGHT_ALIGN);
                s.push_str(PADDING_RIGHT_ZERO);
            } else {
                s.push_str(LEFT_ALIGN);
                s.push_str(PADDING_LEFT_ZERO);
            }
            s.push_str(MTD_CLOSE_STYLE);
        },
    }
    assert(final(s)@ =~= old(s)@ + predefined_mtd(align, idx as nat));
}

/// Appends the empty cell that draws a vertical line.
fn write_line_mtd(s: &mut String, line_type: LineType, is_sub: bool)
    ensures
        final(s)@ == old(s)@ + line_mtd(line_type, is_sub),
{
    s.push_str(MTD_OPEN_STYLE);
    match line_type {
        LineType::Solid => {
            s.push_str(BORDER_RIGHT_SOLID);
        },
        LineType::Dashed => {
            s.push_str(BORDER_RIGHT_DASHED);
        },
    }
    if is_sub {
        s.push_str(PADDING_TOP_BOTTOM_ZERO);
    }
    s.push_str(LINE_PADDING);
    s.push_str(EMPTY_CELL_END);
    assert(final(s)@ =~= old(s)@ + line_mtd(line_type, is_sub));
}

/// Appends the opening tag of a content column.
fn write_content_mtd(s: &mut String, column_spec: ColumnSpec, is_sub: bool)
    ensures
        final(s)@ == old(s)@ + content_mtd(column_spec, is_sub),
{
    match column_spec {
        ColumnSpec::WithContent(alignment, line_type) => {
            if matches!(alignment, ColumnAlignment::Centered) && line_type.is_none() && !is_sub {
                s.push_str(SIMPLE_CENTERED);
                return;
            }
            s.push_str(MTD_OPEN_STYLE);
            match alignment {
                ColumnAlignment::LeftJustified => {
                    s.push_str(LEFT_ALIGN);
                },
                ColumnAlignment::Centered => {},
                ColumnAlignment::RightJustified => {
                    s.push_str(RIGHT_ALIGN);
                },
            }
            match line_type {
                Some(LineType::Solid) => {
                    s.push_str(BORDER_RIGHT_SOLID);
                },
                Some(LineType::Dashed) => {
                    s.push_str(BORDER_RIGHT_DASHED);
                },
                _ => {},
            }
            if is_sub {
                s.push_str(PADDING_TOP_BOTTOM_ZERO);
            }
            s.push_str(MTD_CLOSE_STYLE);
            assert(final(s)@ =~= old(s)@ + content_mtd(column_spec, is_sub));
        },
        ColumnSpec::OnlyLine(_) => {
            assert(final(s)@ =~= old(s)@ + content_mtd(column_spec, is_sub));
        },
    }
}

/// The entry of `specs` at `idx`, or a centred column without lines past the end.
fn get_column(specs: &[ColumnSpec], idx: usize) -> (r: ColumnSpec)
    ensures
        r == column_at(specs@, idx as nat),
{
    if idx < specs.len() {
        specs[idx]
    } else {
        ColumnSpec::WithContent(ColumnAlignment::Centered, None)
    }
}

/// Whether `t` holds no line break.
pub open spec fn one_line(t: Seq<char>) -> bool {
    forall|i: int| 0 <= i < t.len() ==> #[trigger] t[i] != '\n'
}

/// Whether `t` begins with `<mtd`.
pub open spec fn opens_mtd(t: Seq<char>) -> bool {
    t.len() >= 4 && t.subrange(0, 4) == "<mtd"@
}

proof fn lemma_one_line_concat(a: Seq<char>, b: Seq<char>)
    requires
        one_line(a),
        one_line(b),
    ensures
        one_line(a + b),
{
    assert forall|i: int| 0 <= i < (a + b).len() implies #[trigger] (a + b)[i] != '\n' by {
        if i < a.len() {
            assert((a + b)[i] == a[i]);
        } else {
            assert((a + b)[i] == b[i - a.len()]);
        }
    }
}

proof fn lemma_opens_mtd_concat(a: Seq<char>, b: Seq<char>)
    requires
        opens_mtd(a),
    ensures
        opens_mtd(a + b),
{
    assert((a + b).subrange(0, 4) =~= a.subrange(0, 4));
}

proof fn lemma_constants_one_line()
    ensures
        opens_mtd(MTD_OPEN_STYLE@),
        opens_mtd(SIMPLE_CENTERED@),
        one_line(MTD_OPEN_STYLE@),
        one_line(MTD_CLOSE_STYLE@),
        one_line(LEFT_ALIGN@),
        one_line(RIGHT_ALIGN@),
        one_line(PADDING_RIGHT_ZERO@),
        one_line(PADDING_LEFT_ZERO@),
        one_line(PADDING_LEFT_ONE_EM@),
        one_line(PADDING_TOP_BOTTOM_ZERO@),
        one_line(BORDER_RIGHT_SOLID@),
        one_line(BORDER_RIGHT_DASHED@),
        one_line(LINE_PADDING@),
        one_line(EMPTY_CELL_END@),
        one_line(SIMPLE_CENTERED@),
{
    reveal_strlit("<mtd style=\"");
    reveal_strlit("<mtd");
    reveal_strlit("\">");
    reveal_strlit("text-align: left;justify-items: start;");
    reveal_strlit("text-align: right;justify-items: end;");
    reveal_strlit("padding-right: 0;");
    reveal_strlit("padding-left: 0;");
    reveal_strlit("padding-left:1em;");
    reveal_strlit("padding-top: 0;padding-bottom: 0;");
    reveal_strlit("border-right: 0.05em solid currentcolor;");
    reveal_strlit("border-right: 0.05em dashed currentcolor;");
    reveal_strlit("padding-left: 0.1em;padding-right: 0.1em;");
    reveal_strlit("\"></mtd>");
    reveal_strlit("<mtd>");
    assert(MTD_OPEN_STYLE@.subrange(0, 4) =~= "<mtd"@);
    assert(SIMPLE_CENTERED@.subrange(0, 4) =~= "<mtd"@);
}

proof fn lemma_empty_one_line()
    ensures
        one_line(Seq::<char>::empty()),
{
}

/// The opening tag of a predefined column is a single line that begins with
/// `<mtd`.
pub proof fn lemma_predefined_mtd_one_cell(align: Alignment, idx: nat)
    ensures
        opens_mtd(predefined_mtd(align, idx)),
        one_line(predefined_mtd(align, idx)),
{
    lemma_constants_one_line();
    lemma_empty_one_line();
    match align {
        Alignment::Centered => {},
        Alignment::Cases => {
            let pad = if idx % 2 == 0 {
                Seq::<char>::empty()
            } else {
                PADDING_LEFT_ONE_EM@
            };
            lemma_opens_mtd_concat(MTD_OPEN_STYLE@, LEFT_ALIGN@);
            lemma_opens_mtd_concat(MTD_OPEN_STYLE@ + LEFT_ALIGN@, PADDING_RIGHT_ZERO@);
            lemma_opens_mtd_concat(MTD_OPEN_STYLE@ + LEFT_ALIGN@ + PADDING_RIGHT_ZERO@, pad);
            lemma_opens_mtd_concat(MTD_OPEN_STYLE@ + LEFT_ALIGN@ + PADDING_RIGHT_ZERO@ + pad, MTD_CLOSE_STYLE@);
            lemma_one_line_concat(MTD_OPEN_STYLE@, LEFT_ALIGN@);
            lemma_one_line_concat(MTD_OPEN_STYLE@ + LEFT_ALIGN@, PADDING_RIGHT_ZERO@);
            lemma_one_line_concat(MTD_OPEN_STYLE@ + LEFT_ALIGN@ + PADDING_RIGHT_ZERO@, pad);
            lemma_one_line_concat(MTD_OPEN_STYLE@ + LEFT_ALIGN@ + PADDING_RIGHT_ZERO@ + pad, MTD_CLOSE_STYLE@);
        },
        Alignment::Alternating => {
            let mid = if idx % 2 == 0 {
                RIGHT_ALIGN@ + PADDING_RIGHT_ZERO@
            } else {
                LEFT_ALIGN@ + PADDING_LEFT_ZERO@
            };
            lemma_one_line_concat(RIGHT_ALIGN@, PADDING_RIGHT_ZERO@);
            lemma_one_line_concat(LEFT_ALIGN@, PADDING_LEFT_ZERO@);
            lemma_opens_mtd_concat(MTD_OPEN_STYLE@, mid);
            lemma_opens_mtd_concat(MTD_OPEN_STYLE@ + mid, MTD_CLOSE_STYLE@);
            lemma_one_line_concat(MTD_OPEN_STYLE@, mid);
            lemma_one_line_concat(MTD_OPEN_STYLE@ + mid, MTD_CLOSE_STYLE@);
        },
    }
}

/// Writing the next custom column without indentation appends a single line
/// that begins with `<mtd`: line-only entries become empty cells on the same
/// line, before the opening tag of the next content column.
pub proof fn lemma_custom_mtd_one_cell(specs: Seq<ColumnSpec>, is_sub: bool, idx: nat)
    ensures
        opens_mtd(custom_mtd(specs, is_sub, idx, 0).0),
        one_line(custom_mtd(specs, is_sub, idx, 0).0),
    decreases specs.len() - idx,
{
    lemma_constants_one_line();
    lemma_empty_one_line();
    let sub = sub_padding(is_sub);
    assert(one_line(sub));
    match column_at(specs, idx) {
        ColumnSpec::OnlyLine(line) => {
            let b = border(line);
            assert(one_line(b));
            let l = line_mtd(line, is_sub);
            lemma_one_line_concat(MTD_OPEN_STYLE@, b);
            lemma_one_line_concat(MTD_OPEN_STYLE@ + b, sub);
            lemma_one_line_concat(MTD_OPEN_STYLE@ + b + sub, LINE_PADDING@);
            lemma_one_line_concat(MTD_OPEN_STYLE@ + b + sub + LINE_PADDING@, EMPTY_CELL_END@);
            lemma_opens_mtd_concat(MTD_OPEN_STYLE@, b);
            lemma_opens_mtd_concat(MTD_OPEN_STYLE@ + b, sub);
            lemma_opens_mtd_concat(MTD_OPEN_STYLE@ + b + sub, LINE_PADDING@);
            lemma_opens_mtd_concat(MTD_OPEN_STYLE@ + b + sub + LINE_PADDING@, EMPTY_CELL_END@);
            assert(idx < specs.len());
            lemma_custom_mtd_one_cell(specs, is_sub, idx + 1);
            let rest = custom_mtd(specs, is_sub, idx + 1, 0).0;
            assert(l + line_and_indent(0) + rest =~= l + rest);
            lemma_one_line_concat(l, rest);
            lemma_opens_mtd_concat(l, rest);
        },
        ColumnSpec::WithContent(alignment, line) => {
            let entry = column_at(specs, idx);
            if alignment == ColumnAlignment::Centered && line is None && !is_sub {
            } else {
                let a = match alignment {
                    ColumnAlignment::LeftJustified => LEFT_ALIGN@,
                    ColumnAlignment::Centered => Seq::empty(),
                    ColumnAlignment::RightJustified => RIGHT_ALIGN@,
                };
                let b = match line {
                    Some(l) => border(l),
                    None => Seq::empty(),
                };
                assert(one_line(a));
                assert(one_line(b));
                lemma_one_line_concat(MTD_OPEN_STYLE@, a);
                lemma_one_line_concat(MTD_OPEN_STYLE@ + a, b);
                lemma_one_line_concat(MTD_OPEN_STYLE@ + a + b, sub);
                lemma_one_line_concat(MTD_OPEN_STYLE@ + a + b + sub, MTD_CLOSE_STYLE@);
                lemma_opens_mtd_concat(MTD_OPEN_STYLE@, a);
                lemma_opens_mtd_concat(MTD_OPEN_STYLE@ + a, b);
                lemma_opens_mtd_concat(MTD_OPEN_STYLE@ + a + b, sub);
                lemma_opens_mtd_concat(MTD_OPEN_STYLE@ + a + b + sub, MTD_CLOSE_STYLE@);
            }
        },
    }
}

/// Without indentation, every generator writes its next column as a single
/// line that begins with `<mtd`.
pub proof fn lemma_next_mtd_one_cell<'arena>(kind: AlignmentType<'arena>, idx: nat)
    ensures
        opens_mtd(next_mtd(kind, idx, 0).0),
        one_line(next_mtd(kind, idx, 0).0),
{
    match kind {
        AlignmentType::Predefined(align) => lemma_predefined_mtd_one_cell(align, idx),
        AlignmentType::Custom(spec) => lemma_custom_mtd_one_cell(spec.column_spec@, spec.is_sub, idx),
    }
}

/// Under a predefined alignment, the opening tag of a column depends only on
/// whether the column is even or odd: `align` alternates right-aligned even
/// columns (the left side of each `&` pair) with left-aligned odd columns,
/// `cases` pads every odd column on its left, and `matrix`-like tables centre
/// every column.
pub proof fn lemma_predefined_columns_alternate(align: Alignment, idx: nat)
    ensures
        predefined_mtd(align, idx) == predefined_mtd(align, idx % 2),
        align == Alignment::Alternating ==> (predefined_mtd(align, idx).subrange(
            0,
            (MTD_OPEN_STYLE@.len() + RIGHT_ALIGN@.len()) as int,
        ) == MTD_OPEN_STYLE@ + RIGHT_ALIGN@ <==> idx % 2 == 0),
        align == Alignment::Alternating && idx % 2 == 1 ==> predefined_mtd(align, idx) == MTD_OPEN_STYLE@
            + LEFT_ALIGN@ + PADDING_LEFT_ZERO@ + MTD_CLOSE_STYLE@,
        align == Alignment::Alternating && idx % 2 == 0 ==> predefined_mtd(align, idx) == MTD_OPEN_STYLE@
            + RIGHT_ALIGN@ + PADDING_RIGHT_ZERO@ + MTD_CLOSE_STYLE@,
        align == Alignment::Centered ==> predefined_mtd(align, idx) == SIMPLE_CENTERED@,
        align == Alignment::Cases ==> predefined_mtd(align, idx) == MTD_OPEN_STYLE@ + LEFT_ALIGN@
            + PADDING_RIGHT_ZERO@ + (if idx % 2 == 1 {
            PADDING_LEFT_ONE_EM@
        } else {
            Seq::empty()
        }) + MTD_CLOSE_STYLE@,
{
    reveal_strlit("<mtd style=\"");
    reveal_strlit("text-align: left;justify-items: start;");
    reveal_strlit("text-align: right;justify-items: end;");
    reveal_strlit("padding-right: 0;");
    reveal_strlit("padding-left: 0;");
    reveal_strlit("\">");
    assert((idx % 2) % 2 == idx % 2);
    if align == Alignment::Alternating {
        let k = (MTD_OPEN_STYLE@.len() + RIGHT_ALIGN@.len()) as int;
        let even = MTD_OPEN_STYLE@ + RIGHT_ALIGN@ + PADDING_RIGHT_ZERO@ + MTD_CLOSE_STYLE@;
        let odd = MTD_OPEN_STYLE@ + LEFT_ALIGN@ + PADDING_LEFT_ZERO@ + MTD_CLOSE_STYLE@;
        assert(even =~= MTD_OPEN_STYLE@ + (RIGHT_ALIGN@ + PADDING_RIGHT_ZERO@) + MTD_CLOSE_STYLE@);
        assert(odd =~= MTD_OPEN_STYLE@ + (LEFT_ALIGN@ + PADDING_LEFT_ZERO@) + MTD_CLOSE_STYLE@);
        assert(even.subrange(0, k) =~= MTD_OPEN_STYLE@ + RIGHT_ALIGN@);
        let j = MTD_OPEN_STYLE@.len() + 12int;
        assert(LEFT_ALIGN@[12] == 'l');
        assert(RIGHT_ALIGN@[12] == 'r');
        assert(LEFT_ALIGN@.len() > 12 && RIGHT_ALIGN@.len() > 12);
        assert(odd[j] == LEFT_ALIGN@[12]);
        assert(odd.subrange(0, k)[j] == 'l');
        assert((MTD_OPEN_STYLE@ + RIGHT_ALIGN@)[j] == 'r');
    }
}

/// The number of entries in a custom column specification; none for a
/// predefined alignment.
pub open spec fn column_count<'arena>(kind: AlignmentType<'arena>) -> nat {
    match kind {
        AlignmentType::Predefined(_) => 0,
        AlignmentType::Custom(spec) => spec.column_spec@.len(),
    }
}

proof fn lemma_custom_index_bound(specs: Seq<ColumnSpec>, is_sub: bool, idx: nat, indent: nat)
    ensures
        custom_mtd(specs, is_sub, idx, indent).1 <= (if idx >= specs.len() { idx } else { specs.len() }) + 1,
    decreases specs.len() - idx,
{
    if idx < specs.len() {
        if column_at(specs, idx) is OnlyLine {
            lemma_custom_index_bound(specs, is_sub, idx + 1, indent);
        }
    }
}

/// Writing a column moves the column index to at most one past the larger of
/// the current index and the length of the column specification.
pub proof fn lemma_next_mtd_index_bound<'arena>(kind: AlignmentType<'arena>, idx: nat, indent: nat)
    ensures
        next_mtd(kind, idx, indent).1 <= (if idx >= column_count(kind) { idx } else { column_count(kind) }) + 1,
{
    if let AlignmentType::Custom(spec) = kind {
        lemma_custom_index_bound(spec.column_spec@, spec.is_sub, idx, indent);
    }
}

impl<'arena> ColumnGenerator<'arena> {
    /// A generator is determined by its kind and its column: after
    /// `reset_columns`, a generator is the one its constructor made.
    pub proof fn lemma_same_kind_and_column(g1: Self, g2: Self)
        requires
            g1.kind() == g2.kind(),
            g1.column_index() == g2.column_index(),
        ensures
            g1 == g2,
    {
    }
}

} // verus!
