use vstd::prelude::*;

verus! {

/// The TeX math class of a character.
#[derive(Debug, Clone, Copy, PartialEq, Eq, Structural)]
pub enum Class {
    /// `mathord`
    Default,
    /// `mathop`
    Operator,
    /// `mathbin`
    BinaryOp,
    /// `mathrel`
    Relation,
    /// `mathopen`
    Open,
    /// `mathclose`
    Close,
    /// `mathpunct`
    Punctuation,
}

impl Default for Class {
    fn default() -> (r: Self)
        ensures
            r == Class::Default,
    {
        Class::Default
    }
}

} // verus!
