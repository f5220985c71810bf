//! Operator characters and the MathML operator categories they belong to.
use vstd::prelude::*;

use crate::contracts::{code_of, is_scalar_value};

verus! {

/// A character for use in MathML `<mo>` elements.
///
/// LaTeX's operator classes cannot be mapped cleanly to MathML's `<mo>` vs `<mi>` distinction.
/// Some characters that are in class 0 in LaTeX are nevertheless rendered as `<mo>` in MathML.
#[derive(Debug, Clone, PartialEq, Eq, Copy)]
pub struct MathMLOperator(char);

impl View for MathMLOperator {
    type V = char;

    closed spec fn view(&self) -> char {
        self.0
    }
}

impl MathMLOperator {
    /// The operator for the character `c`.
    pub fn new(c: char) -> (r: Self)
        ensures
            r@ == c,
    {
        MathMLOperator(c)
    }

    /// The operator's character.
    pub fn as_char(&self) -> (c: char)
        ensures
            c == self@,
    {
        self.0
    }
}

impl From<MathMLOperator> for char {
    fn from(op: MathMLOperator) -> (c: char) {
        op.0
    }
}

impl vstd::std_specs::convert::FromSpecImpl<MathMLOperator> for char {
    open spec fn obeys_from_spec() -> bool {
        true
    }

    open spec fn from_spec(op: MathMLOperator) -> char {
        op@
    }
}

impl From<&MathMLOperator> for char {
    fn from(op: &MathMLOperator) -> (c: char) {
        op.0
    }
}

impl vstd::std_specs::convert::FromSpecImpl<&MathMLOperator> for char {
    open spec fn obeys_from_spec() -> bool {
        true
    }

    open spec fn from_spec(op: &MathMLOperator) -> char {
        op@
    }
}

#[derive(Debug, Clone, Copy, PartialEq, Eq, Structural)]
pub enum OrdCategory {
    /// Category F and G: Prefix or postfix, zero spacing, stretchy, symmetric
    /// (e.g. `|`).
    FG,
    /// Category D: Prefix, zero spacing (e.g. `¬`).
    OnlyD,
    /// Category E: Postfix, zero spacing (e.g. `′`).
    OnlyE,
    /// Category I: Postfix, zero spacing, stretchy
    OnlyI,
    /// Category K: Infix, zero spacing (e.g. `/`).
    OnlyK,
}

#[derive(Debug, Clone, Copy, PartialEq, Eq, Structural)]
pub enum BigOpCategory {
    /// Category H: Prefix, op spacing, symmetric, largeop (e.g. `∫`).
    OnlyH,
    /// Category J: Prefix, op spacing, symmetric, largeop, movablelimits
    /// (e.g. `∑`).
    OnlyJ,
}

#[derive(Debug, Clone, Copy, PartialEq, Eq, Structural)]
pub enum BinCategory {
    /// Category B: Infix, binary op spacing (e.g. `÷`)
    OnlyB,
    /// Category B and D: Infix and prefix, binary op spacing (e.g. `+`)
    BD,
    /// Category C: Infix, op spacing (e.g. `×`).
    OnlyC,
}

#[derive(Debug, Clone, Copy, PartialEq, Eq, Structural)]
pub enum RelCategory {
    Default,
    /// Category A: Infix, relation spacing, stretchy (e.g. `↑`).
    OnlyA,
}

/// An operator with zero spacing, categories D, E, F, G, I, K.
#[derive(Clone, Copy, PartialEq, Eq)]
pub struct OrdLike {
    char: u16,
    pub cat: OrdCategory,
}

/// The OrdLike for the character `ch` in category `cat`.
pub fn ord(ch: char, cat: OrdCategory) -> (r: OrdLike)
    requires
        ch as u32 <= 0xFFFF,
    ensures
        r.wf(),
        r.code_point() == ch as int,
        r.category() == cat,
{
    OrdLike { char: ch as u32 as u16, cat }
}

impl OrdLike {
    /// The category of the operator.
    pub closed spec fn category(&self) -> OrdCategory {
        self.cat
    }

    /// The code point of the character.
    pub closed spec fn code_point(&self) -> int {
        self.char as int
    }

    /// The stored code point is a Unicode scalar value.
    pub open spec fn wf(&self) -> bool {
        is_scalar_value(self.code_point())
    }

    /// The character as a MathML operator.
    pub fn as_op(&self) -> (r: MathMLOperator)
        requires
            self.wf(),
        ensures
            r@ as int == self.code_point(),
    {
        MathMLOperator(core::char::from_u32(self.char as u32).unwrap())
    }
}

/// A prefix operator with operator spacing (categories H, J).
#[derive(Clone, Copy, PartialEq, Eq)]
pub struct BigOp {
    char: u16,
    pub cat: BigOpCategory,
}

/// The BigOp for the character `ch` in category `cat`.
pub fn big_op(ch: char, cat: BigOpCategory) -> (r: BigOp)
    requires
        ch as u32 <= 0xFFFF,
    ensures
        r.wf(),
        r.code_point() == ch as int,
        r.category() == cat,
{
    BigOp { char: ch as u32 as u16, cat }
}

impl BigOp {
    /// The category of the operator.
    pub closed spec fn category(&self) -> BigOpCategory {
        self.cat
    }

    /// The code point of the character.
    pub closed spec fn code_point(&self) -> int {
        self.char as int
    }

    /// The stored code point is a Unicode scalar value.
    pub open spec fn wf(&self) -> bool {
        is_scalar_value(self.code_point())
    }

    /// The character as a MathML operator.
    pub fn as_op(&self) -> (r: MathMLOperator)
        requires
            self.wf(),
        ensures
            r@ as int == self.code_point(),
    {
        MathMLOperator(core::char::from_u32(self.char as u32).unwrap())
    }
}

/// An infix operator that does *not* have relation spacing or zero spacing
/// (categories B and C).
#[derive(Clone, Copy, PartialEq, Eq)]
pub struct Bin {
    char: u16,
    pub cat: BinCategory,
}

/// The Bin for the character `ch` in category `cat`.
pub fn bin(ch: char, cat: BinCategory) -> (r: Bin)
    requires
        ch as u32 <= 0xFFFF,
    ensures
        r.wf(),
        r.code_point() == ch as int,
        r.category() == cat,
{
    Bin { char: ch as u32 as u16, cat }
}

impl Bin {
    /// The category of the operator.
    pub closed spec fn category(&self) -> BinCategory {
        self.cat
    }

    /// The code point of the character.
    pub closed spec fn code_point(&self) -> int {
        self.char as int
    }

    /// The stored code point is a Unicode scalar value.
    pub open spec fn wf(&self) -> bool {
        is_scalar_value(self.code_point())
    }

    /// The character as a MathML operator.
    pub fn as_op(&self) -> (r: MathMLOperator)
        requires
            self.wf(),
        ensures
            r@ as int == self.code_point(),
    {
        MathMLOperator(core::char::from_u32(self.char as u32).unwrap())
    }
}

/// A operator with relation spacing.
#[derive(Clone, Copy, PartialEq, Eq)]
pub struct Rel {
    char: u16,
    pub cat: RelCategory,
}

/// The Rel for the character `ch` in category `cat`.
pub fn rel(ch: char, cat: RelCategory) -> (r: Rel)
    requires
        ch as u32 <= 0xFFFF,
    ensures
        r.wf(),
        r.code_point() == ch as int,
        r.category() == cat,
{
    Rel { char: ch as u32 as u16, cat }
}

impl Rel {
    /// The category of the operator.
    pub closed spec fn category(&self) -> RelCategory {
        self.cat
    }

    /// The code point of the character.
    pub closed spec fn code_point(&self) -> int {
        self.char as int
    }

    /// The stored code point is a Unicode scalar value.
    pub open spec fn wf(&self) -> bool {
        is_scalar_value(self.code_point())
    }

    /// The character as a MathML operator.
    pub fn as_op(&self) -> (r: MathMLOperator)
        requires
            self.wf(),
        ensures
            r@ as int == self.code_point(),
    {
        MathMLOperator(core::char::from_u32(self.char as u32).unwrap())
    }
}

impl OrdLike {
    /// The stretchable operator for categories F/G (stretchy as pre- or postfix)
    /// and K (never stretchy); `None` for the other categories.
    pub fn as_stretchable_op(&self) -> (r: Option<StretchableOp>)
        ensures
            match self.category() {
                OrdCategory::FG => r matches Some(op) && op.code_point() == self.code_point()
                    && op.stretchiness() == Stretchy::PrePostfix,
                OrdCategory::OnlyK => r matches Some(op) && op.code_point() == self.code_point()
                    && op.stretchiness() == Stretchy::Never,
                _ => r is None,
            },
    {
        match self.cat {
            OrdCategory::FG => Some(StretchableOp { char: self.char, stretchy: Stretchy::PrePostfix }),
            OrdCategory::OnlyK => Some(StretchableOp { char: self.char, stretchy: Stretchy::Never }),
            _ => None,
        }
    }
}

impl Rel {
    /// The stretchable (asymmetric) operator for category A; `None` otherwise.
    pub fn as_stretchable_op(&self) -> (r: Option<StretchableOp>)
        ensures
            match self.category() {
                RelCategory::OnlyA => r matches Some(op) && op.code_point() == self.code_point()
                    && op.stretchiness() == Stretchy::AlwaysAsymmetric,
                _ => r is None,
            },
    {
        match self.cat {
            RelCategory::OnlyA => Some(
                StretchableOp { char: self.char, stretchy: Stretchy::AlwaysAsymmetric },
            ),
            _ => None,
        }
    }
}

/// An operator with punctuation spacing (category M).
#[derive(Debug, Clone, PartialEq, Eq, Copy)]
pub struct Punct(char);

impl Punct {
    /// The punctuation character `c`.
    pub fn new(c: char) -> (r: Self)
        ensures
            r.as_char_spec() == c,
    {
        Punct(c)
    }

    /// The punctuation character.
    pub closed spec fn as_char_spec(&self) -> char {
        self.0
    }

    /// The character as a MathML operator.
    pub fn as_op(&self) -> (r: MathMLOperator)
        ensures
            r@ == self.as_char_spec(),
    {
        MathMLOperator(self.0)
    }
}

/// An operator that has zero spacing and is stretchy and symmetric
/// (category G and F).
#[derive(Debug, Clone, PartialEq, Eq, Copy)]
pub struct Fence(char);

impl Fence {
    /// The fence character `c`.
    pub fn new(c: char) -> (r: Self)
        ensures
            r.as_char_spec() == c,
    {
        Fence(c)
    }

    /// The fence character.
    pub closed spec fn as_char_spec(&self) -> char {
        self.0
    }

    /// The fence as an always stretchy operator; the character must fit in 16 bits.
    pub fn as_op(&self) -> (r: StretchableOp)
        requires
            self.as_char_spec() as u32 <= 0xFFFF,
        ensures
            r.code_point() == self.as_char_spec() as int,
            r.stretchiness() == Stretchy::Always,
            r.wf(),
    {
        StretchableOp { char: self.0 as u32 as u16, stretchy: Stretchy::Always }
    }
}

#[derive(Debug, Clone, Copy, PartialEq, Eq, Structural)]
pub enum Stretchy {
    /// The operator is always stretchy (e.g. `(`, `)`).
    Always,
    /// The operator is only stretchy as a pre- or postfix operator (e.g. `|`).
    PrePostfix,
    /// The operator is never stretchy (e.g. `/`).
    Never,
    /// The operator is always stretchy but isn't symmetric (e.g. `↑`).
    AlwaysAsymmetric,
}

/// An operator character together with its stretching behaviour.
#[derive(Debug, Clone, PartialEq, Eq, Copy)]
pub struct StretchableOp {
    char: u16,
    pub stretchy: Stretchy,
}

impl StretchableOp {
    /// How the operator stretches.
    pub closed spec fn stretchiness(&self) -> Stretchy {
        self.stretchy
    }

    /// The code point of the character.
    pub closed spec fn code_point(&self) -> int {
        self.char as int
    }

    /// The stored code point is a Unicode scalar value.
    pub open spec fn wf(&self) -> bool {
        is_scalar_value(self.code_point())
    }

    /// How the operator stretches.
    pub fn stretchy_kind(&self) -> (r: Stretchy)
        ensures
            r == self.stretchiness(),
    {
        self.stretchy
    }

    /// The parenthesis behaves like a normal identifier
    /// (which is different from an operator with reduced spacing!)
    pub fn ordinary_spacing(&self) -> (r: bool)
        ensures
            r == (self.stretchiness() == Stretchy::Never || self.stretchiness() == Stretchy::PrePostfix),
    {
        matches!(self.stretchy, Stretchy::Never | Stretchy::PrePostfix)
    }

    /// The character whose code point is stored.
    pub closed spec fn character(&self) -> char {
        choose|c: char| #[trigger] code_of(c) == self.code_point()
    }

    /// The operator's character.
    pub fn as_char(&self) -> (c: char)
        requires
            self.wf(),
        ensures
            c as int == self.code_point(),
            c == self.character(),
    {
        let c = core::char::from_u32(self.char as u32).unwrap();
        proof {
            assert(code_of(c) == self.code_point());
            let d = self.character();
            assert(d as int == self.code_point());
            assert(d as u32 == c as u32);
        }
        c
    }
}

} // verus!
