use vstd::prelude::*;

verus! {

/// Whether an equation is shown as a block or inline.
#[derive(Debug, Clone, Copy, PartialEq, Eq, Structural)]
pub enum Display {
    Block,
    Inline,
}

impl Display {
    /// The value of the `display` attribute: `block` or `inline`.
    pub fn as_str(&self) -> (r: &'static str)
        ensures
            r@ == match self {
                Display::Block => "block"@,
                Display::Inline => "inline"@,
            },
    {
        match self {
            Display::Block => "block",
            Display::Inline => "inline",
        }
    }
}

} // verus!
