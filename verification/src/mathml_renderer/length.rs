//! Units of lengths, both absolute and relative to font size.
use vstd::prelude::*;

verus! {

#[derive(Debug, Clone, Copy, PartialEq, Eq, Structural)]
pub enum LengthUnit {
    // absolute unit
    Rem,
    // relative units
    Em,
    Ex,
}

impl LengthUnit {
    /// The CSS name of the unit.
    pub fn as_str(&self) -> (r: &'static str)
        ensures
            r@ == match self {
                LengthUnit::Rem => "rem"@,
                LengthUnit::Em => "em"@,
                LengthUnit::Ex => "ex"@,
            },
    {
        match self {
            LengthUnit::Rem => "rem",
            LengthUnit::Em => "em",
            LengthUnit::Ex => "ex",
        }
    }
}

} // verus!
