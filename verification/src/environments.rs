//! The LaTeX environments (`\\begin{...}`) that the converter knows, and the
//! numbering of equations in them.
use vstd::prelude::*;

use crate::mathml_renderer::symbol::{ord, Fence, OrdCategory, StretchableOp, Stretchy};
use crate::renderer::arena::Arena;
use crate::renderer::attribute::Style;
use crate::renderer::node::{valid_number, Node};
use crate::renderer::table::{Alignment, ArraySpec};
use crate::text::str_eq;

verus! {

#[derive(Debug, Clone, Copy, PartialEq, Eq, Structural)]
pub enum Env {
    Array,
    Subarray,
    Align,
    AlignStar,
    Aligned,
    Equation,
    EquationStar,
    Gather,
    GatherStar,
    Gathered,
    MultLine,
    Cases,
    Matrix,
    BMatrix,
    Bmatrix,
    PMatrix,
    VMatrix,
    Vmatrix,
}

/// The name of the environment, as written in `\\begin{...}`.
pub open spec fn env_name(env: Env) -> Seq<char> {
    match env {
        Env::Array => "array"@,
        Env::Subarray => "subarray"@,
        Env::Align => "align"@,
        Env::AlignStar => "align*"@,
        Env::Aligned => "aligned"@,
        Env::Equation => "equation"@,
        Env::EquationStar => "equation*"@,
        Env::Gather => "gather"@,
        Env::GatherStar => "gather*"@,
        Env::Gathered => "gathered"@,
        Env::MultLine => "multline"@,
        Env::Cases => "cases"@,
        Env::Matrix => "matrix"@,
        Env::BMatrix => "bmatrix"@,
        Env::Bmatrix => "Bmatrix"@,
        Env::PMatrix => "pmatrix"@,
        Env::VMatrix => "vmatrix"@,
        Env::Vmatrix => "Vmatrix"@,
    }
}

/// The environment with the name `s`, if there is one.
pub open spec fn env_from_name(s: Seq<char>) -> Option<Env> {
    if exists|env: Env| #[trigger] env_name(env) == s {
        Some(choose|env: Env| #[trigger] env_name(env) == s)
    } else {
        None
    }
}

/// Looking up the name of an environment finds that environment.
pub proof fn lemma_env_name_roundtrip(env: Env)
    ensures
        env_from_name(env_name(env)) == Some(env),
{
    lemma_env_names_distinct(env, env_from_name(env_name(env)).unwrap());
}

/// No two environments have the same name.
pub proof fn lemma_env_names_distinct(a: Env, b: Env)
    ensures
        env_name(a) == env_name(b) ==> a == b,
{
    reveal_strlit("array");
    reveal_strlit("subarray");
    reveal_strlit("align");
    reveal_strlit("align*");
    reveal_strlit("aligned");
    reveal_strlit("equation");
    reveal_strlit("equation*");
    reveal_strlit("gather");
    reveal_strlit("gather*");
    reveal_strlit("gathered");
    reveal_strlit("multline");
    reveal_strlit("bmatrix");
    reveal_strlit("Bmatrix");
    reveal_strlit("cases");
    reveal_strlit("matrix");
    reveal_strlit("pmatrix");
    reveal_strlit("vmatrix");
    reveal_strlit("Vmatrix");
    if env_name(a) == env_name(b) {
        let (x, y) = (env_name(a), env_name(b));
        assert(x.len() == y.len() && x[0] == y[0] && x[x.len() - 1] == y[y.len() - 1]);
    }
}

impl Env {
    /// The environment called `s`, if there is one.
    pub fn from_str(s: &str) -> (r: Option<Self>)
        ensures
            r == env_from_name(s@),
    {
        let r = find_env(s);
        proof {
            if let Some(env) = r {
                lemma_env_names_distinct(env, env_from_name(s@).unwrap());
            }
        }
        r
    }

    /// The name of the environment.
    pub fn as_str(&self) -> (r: &'static str)
        ensures
            r@ == env_name(*self),
    {
        match self {
            Env::Array => "array",
            Env::Subarray => "subarray",
            Env::Align => "align",
            Env::AlignStar => "align*",
            Env::Aligned => "aligned",
            Env::Equation => "equation",
            Env::EquationStar => "equation*",
            Env::Gather => "gather",
            Env::GatherStar => "gather*",
            Env::Gathered => "gathered",
            Env::MultLine => "multline",
            Env::Cases => "cases",
            Env::Matrix => "matrix",
            Env::BMatrix => "bmatrix",
            Env::Bmatrix => "Bmatrix",
            Env::PMatrix => "pmatrix",
            Env::VMatrix => "vmatrix",
            Env::Vmatrix => "Vmatrix",
        }
    }

    /// `array` and `subarray` take a column specification after `\\begin{...}`.
    pub fn needs_string_literal(&self) -> (r: bool)
        ensures
            r == (*self == Env::Array || *self == Env::Subarray),
    {
        matches!(self, Env::Array | Env::Subarray)
    }

    /// Whether `&` separates columns in the environment; the single-column
    /// environments (`equation`, `gather` and `multline` and their variants) do not allow it.
    pub fn allows_columns(&self) -> (r: bool)
        ensures
            r == !(*self == Env::Equation || *self == Env::EquationStar || *self == Env::Gather
                || *self == Env::GatherStar || *self == Env::Gathered || *self == Env::MultLine),
    {
        !matches!(
            self,
            Env::Equation | Env::EquationStar | Env::Gather | Env::GatherStar | Env::Gathered
                | Env::MultLine
        )
    }

    /// Whether `\\\\` starts a new row; not in `equation` and `equation*`.
    pub fn meaningful_newlines(&self) -> (r: bool)
        ensures
            r == !(*self == Env::Equation || *self == Env::EquationStar),
    {
        !matches!(self, Env::Equation | Env::EquationStar)
    }

    /// The numbering state for the environments that number equations:
    /// `align`, `equation` and `gather` number every row, `multline` only its
    /// last (and starts with one row), and their starred forms number none.
    pub fn get_numbered_env_state(&self) -> (r: Option<NumberedEnvState>)
        ensures
            r == numbered_env_state(*self),
            r matches Some(st) ==> st.wf(),
    {
        if matches!(
            self,
            Env::Align | Env::AlignStar | Env::Equation | Env::EquationStar | Env::Gather
                | Env::GatherStar | Env::MultLine
        ) {
            Some(
                NumberedEnvState {
                    mode: match self {
                        Env::Align | Env::Equation | Env::Gather => NumberingMode::AllByDefault,
                        Env::MultLine => NumberingMode::OnlyLast,
                        _ => NumberingMode::NoneByDefault,
                    },
                    suppress_next_number: false,
                    custom_next_number: None,
                    num_rows: if matches!(self, Env::MultLine) {
                        Some(1)
                    } else {
                        None
                    },
                },
            )
        } else {
            None
        }
    }
}

fn find_env(s: &str) -> (r: Option<Env>)
    ensures
        match r {
            Some(env) => env_name(env) == s@,
            None => forall|env: Env| env_name(env) != s@,
        },
{
    if str_eq(s, "array") {
        return Some(Env::Array);
    }
    if str_eq(s, "subarray") {
        return Some(Env::Subarray);
    }
    if str_eq(s, "align") {
        return Some(Env::Align);
    }
    if str_eq(s, "align*") {
        return Some(Env::AlignStar);
    }
    if str_eq(s, "aligned") {
        return Some(Env::Aligned);
    }
    if str_eq(s, "equation") {
        return Some(Env::Equation);
    }
    if str_eq(s, "equation*") {
        return Some(Env::EquationStar);
    }
    if str_eq(s, "gather") {
        return Some(Env::Gather);
    }
    if str_eq(s, "gather*") {
        return Some(Env::GatherStar);
    }
    if str_eq(s, "gathered") {
        return Some(Env::Gathered);
    }
    if str_eq(s, "multline") {
        return Some(Env::MultLine);
    }
    if str_eq(s, "bmatrix") {
        return Some(Env::BMatrix);
    }
    if str_eq(s, "Bmatrix") {
        return Some(Env::Bmatrix);
    }
    if str_eq(s, "cases") {
        return Some(Env::Cases);
    }
    if str_eq(s, "matrix") {
        return Some(Env::Matrix);
    }
    if str_eq(s, "pmatrix") {
        return Some(Env::PMatrix);
    }
    if str_eq(s, "vmatrix") {
        return Some(Env::VMatrix);
    }
    if str_eq(s, "Vmatrix") {
        return Some(Env::Vmatrix);
    }
    None
}

/// Which rows of an environment get an equation number.
#[derive(Debug, Clone, Copy, PartialEq, Eq, Structural)]
pub enum NumberingMode {
    NoneByDefault,
    AllByDefault,
    OnlyLast,
}

/// State for environments that number equations.
#[derive(Debug, Clone, Copy, PartialEq, Eq, Structural)]
pub struct NumberedEnvState {
    pub mode: NumberingMode,
    pub suppress_next_number: bool,
    pub custom_next_number: Option<u16>,
    pub num_rows: Option<u16>,
}

/// The numbering state that `get_numbered_env_state` gives for `env`.
pub open spec fn numbered_env_state(env: Env) -> Option<NumberedEnvState> {
    match env {
        Env::Align | Env::Equation | Env::Gather => Some(NumberedEnvState {
            mode: NumberingMode::AllByDefault,
            suppress_next_number: false,
            custom_next_number: None,
            num_rows: None,
        }),
        Env::AlignStar | Env::EquationStar | Env::GatherStar => Some(NumberedEnvState {
            mode: NumberingMode::NoneByDefault,
            suppress_next_number: false,
            custom_next_number: None,
            num_rows: None,
        }),
        Env::MultLine => Some(NumberedEnvState {
            mode: NumberingMode::OnlyLast,
            suppress_next_number: false,
            custom_next_number: None,
            num_rows: Some(1u16),
        }),
        _ => None,
    }
}

impl NumberedEnvState {
    /// The custom number and the number of rows are never zero.
    pub open spec fn wf(&self) -> bool {
        valid_number(self.custom_next_number) && valid_number(self.num_rows)
    }

    /// The number of the row that ends now, if it gets one. In `OnlyLast`
    /// mode only the last row is numbered. A custom number (from `\\tag`) is
    /// used once; otherwise, unless the number is suppressed (once) or the
    /// environment numbers no rows, the counter is incremented and its new value
    /// is the number. Fails when the counter would pass `u16::MAX`.
    pub fn next_equation_number(&mut self, equation_counter: &mut u16, is_last: bool) -> (r: Result<Option<u16>, ()>)
        requires
            old(self).wf(),
        ensures
            final(self).wf(),
            r matches Ok(num) ==> valid_number(num),
            ({
                let (st, counter, res) = next_number(*old(self), *old(equation_counter), is_last);
                &&& *final(self) == st
                &&& *final(equation_counter) == counter
                &&& r == res
            }),
    {
        if matches!(self.mode, NumberingMode::OnlyLast) && !is_last {
            return Ok(None);
        }
        if let Some(custom_number) = self.custom_next_number.take() {
            Ok(Some(custom_number))
        } else if self.suppress_next_number || matches!(self.mode, NumberingMode::NoneByDefault) {
            self.suppress_next_number = false;
            Ok(None)
        } else {
            *equation_counter = match equation_counter.checked_add(1) {
                Some(c) => c,
                None => return Err(()),
            };
            Ok(Some(*equation_counter))
        }
    }
}

/// The state, the counter and the result after a row ends, as described at
/// `next_equation_number`.
pub open spec fn next_number(st: NumberedEnvState, counter: u16, is_last: bool) -> (
    NumberedEnvState,
    u16,
    Result<Option<u16>, ()>,
) {
    if st.mode == NumberingMode::OnlyLast && !is_last {
        (st, counter, Ok(None))
    } else if st.custom_next_number is Some {
        (NumberedEnvState { custom_next_number: None, ..st }, counter, Ok(st.custom_next_number))
    } else if st.suppress_next_number || st.mode == NumberingMode::NoneByDefault {
        (NumberedEnvState { suppress_next_number: false, ..st }, counter, Ok(None))
    } else if counter == u16::MAX {
        (st, counter, Err(()))
    } else {
        (st, (counter + 1) as u16, Ok(Some((counter + 1) as u16)))
    }
}

/// A row that gets a number at all (any row but a non-last row of a
/// `multline`) takes the custom number set by `\tag` when there is one, in
/// every numbering mode and whether or not numbering is suppressed: the
/// custom number is used once and cleared, and the counter is left alone.
pub proof fn lemma_custom_number_first(st: NumberedEnvState, counter: u16, is_last: bool, k: u16)
    requires
        !(st.mode == NumberingMode::OnlyLast && !is_last),
        st.custom_next_number == Some(k),
    ensures
        next_number(st, counter, is_last).2 == Ok::<Option<u16>, ()>(Some(k)),
        next_number(st, counter, is_last).0.custom_next_number is None,
        next_number(st, counter, is_last).0.mode == st.mode,
        next_number(st, counter, is_last).0.suppress_next_number == st.suppress_next_number,
        next_number(st, counter, is_last).1 == counter,
{
}

/// A non-last row of a `multline` gets no number and changes nothing.
pub proof fn lemma_only_last_rows(st: NumberedEnvState, counter: u16)
    requires
        st.mode == NumberingMode::OnlyLast,
    ensures
        next_number(st, counter, false) == (st, counter, Ok::<Option<u16>, ()>(None)),
{
}

/// Without a custom number, a row of a starred environment, or a row whose
/// number is suppressed, gets no number; the suppression lasts for that row
/// only, and the counter is left alone.
pub proof fn lemma_unnumbered_rows(st: NumberedEnvState, counter: u16, is_last: bool)
    requires
        !(st.mode == NumberingMode::OnlyLast && !is_last),
        st.custom_next_number is None,
        st.suppress_next_number || st.mode == NumberingMode::NoneByDefault,
    ensures
        next_number(st, counter, is_last).2 == Ok::<Option<u16>, ()>(None),
        !next_number(st, counter, is_last).0.suppress_next_number,
        next_number(st, counter, is_last).1 == counter,
{
}

/// Otherwise the row gets the next number of the counter, one more than the
/// last one given, and the counter moves on to it; only a counter that would
/// pass `u16::MAX` fails.
pub proof fn lemma_counted_rows(st: NumberedEnvState, counter: u16, is_last: bool)
    requires
        !(st.mode == NumberingMode::OnlyLast && !is_last),
        st.custom_next_number is None,
        !st.suppress_next_number,
        st.mode != NumberingMode::NoneByDefault,
    ensures
        counter < u16::MAX ==> next_number(st, counter, is_last).2 == Ok::<Option<u16>, ()>(
            Some((counter + 1) as u16),
        ) && next_number(st, counter, is_last).1 == counter + 1,
        counter == u16::MAX ==> next_number(st, counter, is_last).2 is Err,
{
}

/// Whether `op` is the character `c` stretching as `st`.
pub open spec fn is_op(op: StretchableOp, c: char, st: Stretchy) -> bool {
    op.code_point() == c as int && op.stretchiness() == st
}

/// Whether `t` is a table of the rows `content` with alignment `align` and
/// style `style`.
pub open spec fn is_table<'arena>(
    t: Node<'arena>,
    content: &'arena [&'arena Node<'arena>],
    align: Alignment,
    style: Option<Style>,
) -> bool {
    t == Node::Table { content, align, style }
}

/// Whether `r` is the node of a matrix of the rows `content` between the
/// delimiters `open` and `close`, which stretch as `st`.
pub open spec fn is_fenced_matrix<'arena>(
    r: Node<'arena>,
    content: &'arena [&'arena Node<'arena>],
    open: char,
    close: char,
    st: Stretchy,
) -> bool {
    r matches Node::Fenced { open: Some(o), close: Some(c), content: t, style: None } && is_op(
        o,
        open,
        st,
    ) && is_op(c, close, st) && is_table(*t, content, Alignment::Centered, Some(Style::Display))
}

/// Whether `r` is the node that the environment `env` makes of the rows
/// `content`: a table, an equation array or a multi-line equation (numbered
/// with `last_equation_num`), a custom array, or a table between delimiters.
pub open spec fn env_node<'arena>(
    env: Env,
    content: &'arena [&'arena Node<'arena>],
    array_spec: Option<&'arena ArraySpec<'arena>>,
    last_equation_num: Option<u16>,
    num_rows: Option<u16>,
    r: Node<'arena>,
) -> bool {
    match env {
        Env::Align | Env::AlignStar => r == Node::EquationArray {
            align: Alignment::Alternating,
            last_equation_num,
            content,
        },
        Env::Aligned => is_table(r, content, Alignment::Alternating, Some(Style::Display)),
        Env::Equation | Env::EquationStar | Env::Gather | Env::GatherStar => r
            == Node::EquationArray { align: Alignment::Centered, last_equation_num, content },
        Env::Gathered | Env::Matrix => is_table(r, content, Alignment::Centered, Some(Style::Display)),
        Env::MultLine => r == Node::MultLine {
            content,
            num_rows: match num_rows {
                Some(n) => n,
                None => 1,
            },
            last_equation_num,
        },
        Env::Cases => r matches Node::Fenced { open: Some(o), close: None, content: t, style: None }
            && is_op(o, '{', Stretchy::Always) && is_table(*t, content, Alignment::Cases, None),
        Env::Array => r == Node::Array { style: None, content, array_spec: array_spec->0 },
        Env::Subarray => r == Node::Array {
            style: Some(Style::Script),
            content,
            array_spec: array_spec->0,
        },
        Env::PMatrix => is_fenced_matrix(r, content, '(', ')', Stretchy::Always),
        Env::BMatrix => is_fenced_matrix(r, content, '[', ']', Stretchy::Always),
        Env::Bmatrix => is_fenced_matrix(r, content, '{', '}', Stretchy::Always),
        Env::VMatrix => is_fenced_matrix(r, content, '|', '|', Stretchy::PrePostfix),
        Env::Vmatrix => is_fenced_matrix(r, content, '‖', '‖', Stretchy::PrePostfix),
    }
}

/// The fence `c` as an always stretchy operator.
fn fence_op(c: char) -> (r: StretchableOp)
    requires
        c as u32 <= 0xFFFF,
    ensures
        is_op(r, c, Stretchy::Always),
{
    Fence::new(c).as_op()
}

/// The vertical line `c` as an operator that stretches as pre- or postfix.
fn line_op(c: char) -> (r: StretchableOp)
    requires
        c as u32 <= 0xFFFF,
    ensures
        is_op(r, c, Stretchy::PrePostfix),
{
    ord(c, OrdCategory::FG).as_stretchable_op().unwrap()
}

impl Env {
    /// The node of this environment around the rows `content`; tables that a
    /// delimiter encloses are moved into `arena`. An `array` or `subarray`
    /// takes its column specification from `array_spec`, and a `multline`
    /// its number of rows from `num_rows` (1 when it is not given).
    pub fn construct_node<'arena>(
        &self,
        content: &'arena [&'arena Node<'arena>],
        array_spec: Option<&'arena ArraySpec<'arena>>,
        arena: &'arena Arena,
        last_equation_num: Option<u16>,
        num_rows: Option<u16>,
    ) -> (r: Node<'arena>)
        requires
            *self == Env::Array || *self == Env::Subarray ==> array_spec is Some,
            valid_number(last_equation_num),
            valid_number(num_rows),
        ensures
            env_node(*self, content, array_spec, last_equation_num, num_rows, r),
    {
        match self {
            Env::Align | Env::AlignStar => Node::EquationArray {
                align: Alignment::Alternating,
                last_equation_num,
                content,
            },
            Env::Aligned => Node::Table {
                align: Alignment::Alternating,
                style: Some(Style::Display),
                content,
            },
            Env::Equation | Env::EquationStar | Env::Gather | Env::GatherStar => {
                Node::EquationArray { align: Alignment::Centered, last_equation_num, content }
            },
            Env::Gathered => Node::Table {
                align: Alignment::Centered,
                style: Some(Style::Display),
                content,
            },
            Env::MultLine => Node::MultLine {
                content,
                num_rows: match num_rows {
                    Some(n) => n,
                    None => 1,
                },
                last_equation_num,
            },
            Env::Cases => {
                let table = arena.push(Node::Table { content, align: Alignment::Cases, style: None });
                Node::Fenced { open: Some(fence_op('{')), close: None, content: table, style: None }
            },
            Env::Matrix => Node::Table {
                align: Alignment::Centered,
                style: Some(Style::Display),
                content,
            },
            Env::Array | Env::Subarray => {
                let style = if *self == Env::Subarray {
                    Some(Style::Script)
                } else {
                    None
                };
                Node::Array { style, content, array_spec: array_spec.unwrap() }
            },
            Env::PMatrix | Env::BMatrix | Env::Bmatrix | Env::VMatrix | Env::Vmatrix => {
                let (open, close) = match self {
                    Env::PMatrix => (fence_op('('), fence_op(')')),
                    Env::BMatrix => (fence_op('['), fence_op(']')),
                    Env::Bmatrix => (fence_op('{'), fence_op('}')),
                    Env::VMatrix => (line_op('|'), line_op('|')),
                    _ => (line_op('‖'), line_op('‖')),
                };
                let table = arena.push(Node::Table {
                    content,
                    align: Alignment::Centered,
                    style: Some(Style::Display),
                });
                Node::Fenced { open: Some(open), close: Some(close), content: table, style: None }
            },
        }
    }
}

} // verus!
