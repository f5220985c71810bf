//! Parsing modes, and reading a single character.
use vstd::prelude::*;

verus! {

/// How a sequence of tokens is parsed.
#[derive(Debug, Clone, Copy, PartialEq, Eq, Structural)]
pub enum ParseAs {
    /// A sequence starts with a fresh sequence state.
    Sequence,
    /// A continued sequence keeps the previous sequence state even if a new group is
    /// started.
    ContinueSequence,
    /// For an `Arg`, all spacing is ignored, so we may as well strip it away.
    Arg,
    /// For an `ArgWithSpace`, operator spacing is significant, so we have to be
    /// careful to set it correctly.
    ArgWithSpace,
}

impl ParseAs {
    /// Whether this is one of the two sequence modes.
    pub fn in_sequence(&self) -> (r: bool)
        ensures
            r == (*self == ParseAs::Sequence || *self == ParseAs::ContinueSequence),
    {
        matches!(self, ParseAs::Sequence | ParseAs::ContinueSequence)
    }
}

/// The character of `s` if `s` is exactly one character long.
pub fn get_single_char(s: &str) -> (r: Option<char>)
    ensures
        r == if s@.len() == 1 {
            Some(s@[0])
        } else {
            None::<char>
        },
{
    broadcast use vstd::string::group_string_axioms;

    let mut first: Option<char> = None;
    let mut count: usize = 0;
    for ch in it: s.chars()
        invariant
            it.seq() == s@,
            count == if it.index() < 2 { it.index() as int } else { 2 },
            it.index() > 0 ==> first == Some(s@[0]),
            it.index() == 0 ==> first is None,
    {
        if count == 0 {
            first = Some(ch);
        }
        if count < 2 {
            count = count + 1;
        }
    }
    if count == 1 {
        first
    } else {
        None
    }
}

} // verus!
