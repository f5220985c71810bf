use vstd::prelude::*;

verus! {

/// An operator character.
#[derive(Debug, Clone, PartialEq, Eq, Copy, Structural)]
pub struct Op(pub char);

impl Op {
    /// The operator's character.
    pub fn char(&self) -> (c: char)
        ensures
            c == self.0,
    {
        self.0
    }
}

} // verus!
