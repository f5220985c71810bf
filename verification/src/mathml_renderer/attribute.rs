//! Stretching behaviour of parentheses and how an operator is asked to stretch.
use vstd::prelude::*;

verus! {

/// When a parenthesis-like operator stretches by default.
#[derive(Debug, Clone, Copy, PartialEq, Eq, Structural)]
pub enum Stretchy {
    /// Always stretchy (e.g. `(`, `)`).
    Always,
    /// Only stretchy as a pre- or postfix operator (e.g. `|`).
    PrePostfix,
    /// Never stretchy (e.g. `/`).
    Never,
    /// Stretchy in some renderers but not in others.
    Inconsistent,
}

/// How an operator is being used: as a fence, as a middle delimiter, or
/// without stretching.
#[derive(Debug, Clone, Copy, PartialEq, Eq, Structural)]
pub enum StretchMode {
    NoStretch,
    Fence,
    Middle,
}

} // verus!
