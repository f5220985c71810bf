//! Operator characters and parentheses with their spacing and stretching.
use vstd::prelude::*;

use super::attribute::{StretchMode, Stretchy};

verus! {

/// An operator character.
#[derive(Debug, Clone, PartialEq, Eq, Copy)]
pub struct Op(char);

impl View for Op {
    type V = char;

    closed spec fn view(&self) -> char {
        self.0
    }
}

impl Op {
    /// The operator for the character `c`.
    pub fn new(c: char) -> (r: Self)
        ensures
            r@ == c,
    {
        Op(c)
    }
}

impl From<Op> for char {
    fn from(op: Op) -> (c: char) {
        op.0
    }
}

impl vstd::std_specs::convert::FromSpecImpl<Op> for char {
    open spec fn obeys_from_spec() -> bool {
        true
    }

    open spec fn from_spec(op: Op) -> char {
        op@
    }
}

impl From<&Op> for char {
    fn from(op: &Op) -> (c: char) {
        op.0
    }
}

impl vstd::std_specs::convert::FromSpecImpl<&Op> for char {
    open spec fn obeys_from_spec() -> bool {
        true
    }

    open spec fn from_spec(op: &Op) -> char {
        op@
    }
}

/// A parenthesis: its character, whether it is spaced like an ordinary
/// identifier, and when it stretches.
#[derive(Debug, Clone, PartialEq, Eq, Copy)]
pub struct ParenOp(char, bool, Stretchy);

impl ParenOp {
    /// The parenthesis with character `c`, spacing flag `ordinary` and stretching `s`.
    pub fn new(c: char, ordinary: bool, s: Stretchy) -> (r: Self)
        ensures
            r.character() == c,
            r.has_ordinary_spacing() == ordinary,
            r.stretchiness() == s,
    {
        ParenOp(c, ordinary, s)
    }

    /// The character.
    pub closed spec fn character(&self) -> char {
        self.0
    }

    /// Whether it is spaced like an ordinary identifier.
    pub closed spec fn has_ordinary_spacing(&self) -> bool {
        self.1
    }

    /// When it stretches.
    pub closed spec fn stretchiness(&self) -> Stretchy {
        self.2
    }

    /// The parenthesis behaves like a normal identifier
    /// (which is different from an operator with reduced spacing!)
    pub fn ordinary_spacing(&self) -> (r: bool)
        ensures
            r == self.has_ordinary_spacing(),
    {
        self.1
    }

    /// When the parenthesis stretches.
    pub fn stretchy(&self) -> (r: Stretchy)
        ensures
            r == self.stretchiness(),
    {
        self.2
    }
}

impl From<&ParenOp> for char {
    fn from(op: &ParenOp) -> (c: char) {
        op.0
    }
}

impl vstd::std_specs::convert::FromSpecImpl<&ParenOp> for char {
    open spec fn obeys_from_spec() -> bool {
        true
    }

    open spec fn from_spec(op: &ParenOp) -> char {
        op.character()
    }
}

/// The opening `<mo>` tag of a parenthesis that stretches as `stretchy`, used
/// in `mode`: stretching is switched on for a fence or a middle delimiter that
/// would not stretch reliably by itself, and off where it is not wanted.
pub open spec fn stretchy_mo_open(mode: StretchMode, stretchy: Stretchy) -> Seq<char> {
    match (mode, stretchy) {
        (StretchMode::Fence, Stretchy::Never)
        | (StretchMode::Fence, Stretchy::Inconsistent)
        | (StretchMode::Middle, Stretchy::PrePostfix)
        | (StretchMode::Middle, Stretchy::Inconsistent)
        | (StretchMode::Middle, Stretchy::Never) => "<mo stretchy=\"true\">"@,
        (StretchMode::NoStretch, Stretchy::Always)
        | (StretchMode::NoStretch, Stretchy::PrePostfix)
        | (StretchMode::NoStretch, Stretchy::Inconsistent) => "<mo stretchy=\"false\">"@,
        _ => "<mo>"@,
    }
}

/// The markup of the parenthesis `op` used in `mode`: its opening tag, its
/// character (none for the null character, which stands for an invisible
/// delimiter), and the closing tag.
pub open spec fn stretchy_op_text(mode: StretchMode, op: ParenOp) -> Seq<char> {
    stretchy_mo_open(mode, op.stretchiness()) + (if op.character() == '\0' {
        Seq::empty()
    } else {
        seq![op.character()]
    }) + "</mo>"@
}

/// Appends the markup of the parenthesis `op` used in `mode`.
pub fn emit_stretchy_op(s: &mut String, stretch_mode: StretchMode, op: &ParenOp) -> (r: Result<
    (),
    core::fmt::Error,
>)
    ensures
        r is Ok,
        final(s)@ == old(s)@ + stretchy_op_text(stretch_mode, *op),
{
    match (stretch_mode, op.stretchy()) {
        (StretchMode::Fence, Stretchy::Never | Stretchy::Inconsistent)
        | (StretchMode::Middle, Stretchy::PrePostfix | Stretchy::Inconsistent | Stretchy::Never) => {
            s.push_str("<mo stretchy=\"true\">");
        },
        (StretchMode::NoStretch, Stretchy::Always | Stretchy::PrePostfix | Stretchy::Inconsistent) => {
            s.push_str("<mo stretchy=\"false\">");
        },
        _ => {
            s.push_str("<mo>");
        },
    }
    let c = char::from(op);
    if c != '\0' {
        s.push(c);
    }
    s.push_str("</mo>");
    Ok(())
}

} // verus!
