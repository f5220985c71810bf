//! Contracts for the few `String` methods that vstd leaves unspecified.
use vstd::prelude::*;

verus! {

/// `String::push_str` appends the characters of `string` to `s`; the standard
/// library documents exactly this.
pub assume_specification[ String::push_str ](s: &mut String, string: &str)
    ensures
        final(s)@ == old(s)@ + string@,
;

/// `String::with_capacity` returns an empty string (whatever room it reserves).
pub assume_specification[ String::with_capacity ](capacity: usize) -> (s: String)
    ensures
        s@ == Seq::<char>::empty(),
;

/// `String::clear` removes all characters.
pub assume_specification[ String::clear ](s: &mut String)
    ensures
        final(s)@ == Seq::<char>::empty(),
;

/// `String::push` appends the single character `ch` to `s`.
pub assume_specification[ String::push ](s: &mut String, ch: char)
    ensures
        final(s)@ == old(s)@.push(ch),
;

/// Whether `v` is a Unicode scalar value: at most `0x10FFFF` and outside the
/// surrogate range `0xD800..=0xDFFF`.
pub open spec fn is_scalar_value(v: int) -> bool {
    (0 <= v <= 0xD7FF) || (0xE000 <= v <= 0x10FFFF)
}

/// The code point of `c`.
pub open spec fn code_of(c: char) -> int {
    c as int
}

/// `char::from_u32` returns `Some` exactly when `v` is a Unicode scalar value,
/// and then the character whose code point is `v`, as the standard library
/// documents.
pub assume_specification[ core::char::from_u32 ](v: u32) -> (r: Option<char>)
    ensures
        r is Some <==> is_scalar_value(v as int),
        r matches Some(c) ==> c as u32 == v && c as int == v as int,
;

} // verus!
