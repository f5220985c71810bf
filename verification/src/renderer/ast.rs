//! Pieces of MathML markup: equation numbers in tables and stretchy operators.
use vstd::prelude::*;

use crate::mathml_renderer::attribute::StretchMode;
use crate::mathml_renderer::fmt::{line_and_indent, new_line_and_indent};
use crate::mathml_renderer::itoa::{decimal_chars, fmt_u32};
use crate::mathml_renderer::symbol::{StretchableOp, Stretchy};
use super::table::RIGHT_ALIGN;

verus! {

/// `core::fmt::Error`, the error of writing formatted text.
#[verifier::external_type_specification]
#[verifier::external_body]
pub struct ExFmtError(core::fmt::Error);

/// The cell that carries the equation number at the end of a table row: the
/// number in parentheses, right aligned, or an empty cell when the row has no
/// number.
pub open spec fn equation_num_cell(indent2: nat, indent3: nat, equation_counter: Option<u16>) -> Seq<char> {
    line_and_indent(indent2) + "<mtd style=\"width: 50%"@ + match equation_counter {
        Some(n) => ";"@ + RIGHT_ALIGN@ + "\">"@ + line_and_indent(indent3) + "<mtext>("@
            + decimal_chars(n as nat) + ")</mtext>"@ + line_and_indent(indent2) + "</mtd>"@,
        None => "\"></mtd>"@,
    }
}

/// Writes the cell with the equation number of a table row.
pub fn write_equation_num(
    s: &mut String,
    child_indent2: usize,
    child_indent3: usize,
    equation_counter: Option<u16>,
) -> (r: Result<(), core::fmt::Error>)
    ensures
        r is Ok,
        final(s)@ == old(s)@ + equation_num_cell(child_indent2 as nat, child_indent3 as nat, equation_counter),
{
    new_line_and_indent(s, child_indent2);
    s.push_str("<mtd style=\"width: 50%");
    if let Some(equation_counter) = equation_counter {
        s.push_str(";");
        s.push_str(RIGHT_ALIGN);
        s.push_str("\">");
        new_line_and_indent(s, child_indent3);
        s.push_str("<mtext>(");
        let digits = fmt_u32(equation_counter as u32);
        s.push_str(digits.as_str());
        s.push_str(")</mtext>");
        new_line_and_indent(s, child_indent2);
        s.push_str("</mtd>");
    } else {
        s.push_str("\"></mtd>");
    }
    assert(final(s)@ =~= old(s)@ + equation_num_cell(child_indent2 as nat, child_indent3 as nat, equation_counter));
    Ok(())
}

/// The opening `<mo>` tag of an operator that stretches as `stretchy` when used
/// in `mode`: stretching is switched on where it would otherwise be off, off
/// where it would otherwise be on, and an asymmetric operator used as a middle
/// delimiter is made symmetric.
pub open spec fn stretchy_mo_open(mode: StretchMode, stretchy: Stretchy) -> Seq<char> {
    match (mode, stretchy) {
        (StretchMode::Fence, Stretchy::Never)
        | (StretchMode::Middle, Stretchy::PrePostfix)
        | (StretchMode::Middle, Stretchy::Never) => "<mo stretchy=\"true\">"@,
        (StretchMode::NoStretch, Stretchy::Always)
        | (StretchMode::NoStretch, Stretchy::PrePostfix)
        | (StretchMode::NoStretch, Stretchy::AlwaysAsymmetric) => "<mo stretchy=\"false\">"@,
        (StretchMode::Middle, Stretchy::AlwaysAsymmetric) => "<mo symmetric=\"true\">"@,
        _ => "<mo>"@,
    }
}

/// Writes a stretchy operator (or an empty `<mo></mo>` when there is none).
pub fn emit_stretchy_op(s: &mut String, stretch_mode: StretchMode, op: Option<StretchableOp>) -> (r:
    Result<(), core::fmt::Error>)
    requires
        op matches Some(o) ==> o.wf(),
    ensures
        r is Ok,
        final(s)@ == old(s)@ + match op {
            Some(o) => stretchy_mo_open(stretch_mode, o.stretchiness()) + seq![o.character()]
                + "</mo>"@,
            None => "<mo></mo>"@,
        },
{
    proof {
        reveal_strlit("<mo></mo>");
        reveal_strlit("<mo>");
        reveal_strlit("</mo>");
    }
    if let Some(op) = op {
        match (stretch_mode, op.stretchy_kind()) {
            (StretchMode::Fence, Stretchy::Never)
            | (StretchMode::Middle, Stretchy::PrePostfix | Stretchy::Never) => {
                s.push_str("<mo stretchy=\"true\">");
            },
            (
                StretchMode::NoStretch,
                Stretchy::Always | Stretchy::PrePostfix | Stretchy::AlwaysAsymmetric,
            ) => {
                s.push_str("<mo stretchy=\"false\">");
            },
            (StretchMode::Middle, Stretchy::AlwaysAsymmetric) => {
                s.push_str("<mo symmetric=\"true\">");
            },
            _ => {
                s.push_str("<mo>");
            },
        }
        assert(s@ == old(s)@ + stretchy_mo_open(stretch_mode, op.stretchiness()));
        let c = op.as_char();
        s.push(c);
        s.push_str("</mo>");
        assert(s@ =~= old(s)@ + stretchy_mo_open(stretch_mode, op.stretchiness()) + seq![op.character()] + "</mo>"@);
    } else {
        s.push_str("<mo>");
        s.push_str("</mo>");
        assert(s@ =~= old(s)@ + "<mo></mo>"@);
    }
    assert(final(s)@ =~= old(s)@ + match op {
        Some(o) => stretchy_mo_open(stretch_mode, o.stretchiness()) + seq![o.character()]
            + "</mo>"@,
        None => "<mo></mo>"@,
    });
    Ok(())
}

} // verus!
