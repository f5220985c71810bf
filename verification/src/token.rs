//! Decimal digits as tokens.
use vstd::prelude::*;

verus! {

/// A decimal digit.
#[derive(Debug, Clone, Copy, PartialEq, Eq, Structural)]
pub enum Digit {
    Zero,
    One,
    Two,
    Three,
    Four,
    Five,
    Six,
    Seven,
    Eight,
    Nine,
}

/// The character of the digit.
pub open spec fn digit_char(d: Digit) -> char {
    match d {
        Digit::Zero => '0',
        Digit::One => '1',
        Digit::Two => '2',
        Digit::Three => '3',
        Digit::Four => '4',
        Digit::Five => '5',
        Digit::Six => '6',
        Digit::Seven => '7',
        Digit::Eight => '8',
        Digit::Nine => '9',
    }
}

/// The digit whose character is `c`, for `'0'..='9'`.
pub open spec fn digit_of(c: char) -> Digit {
    if c == '0' {
        Digit::Zero
    } else if c == '1' {
        Digit::One
    } else if c == '2' {
        Digit::Two
    } else if c == '3' {
        Digit::Three
    } else if c == '4' {
        Digit::Four
    } else if c == '5' {
        Digit::Five
    } else if c == '6' {
        Digit::Six
    } else if c == '7' {
        Digit::Seven
    } else if c == '8' {
        Digit::Eight
    } else if c == '9' {
        Digit::Nine
    } else {
        Digit::Zero
    }
}

impl TryFrom<char> for Digit {
    type Error = ();

    /// The digit `value`, or `Err(())` when `value` is not an ASCII decimal digit.
    fn try_from(value: char) -> (r: Result<Self, Self::Error>) {
        match value {
            '0' => Ok(Digit::Zero),
            '1' => Ok(Digit::One),
            '2' => Ok(Digit::Two),
            '3' => Ok(Digit::Three),
            '4' => Ok(Digit::Four),
            '5' => Ok(Digit::Five),
            '6' => Ok(Digit::Six),
            '7' => Ok(Digit::Seven),
            '8' => Ok(Digit::Eight),
            '9' => Ok(Digit::Nine),
            _ => Err(()),
        }
    }
}

impl vstd::std_specs::convert::TryFromSpecImpl<char> for Digit {
    open spec fn obeys_try_from_spec() -> bool {
        true
    }

    open spec fn try_from_spec(value: char) -> Result<Self, ()> {
        if '0' <= value <= '9' {
            Ok(digit_of(value))
        } else {
            Err(())
        }
    }
}

/// Reading the character of a digit gives the digit back, and no other
/// character reads as that digit.
pub proof fn lemma_digit_roundtrip(d: Digit, c: char)
    ensures
        '0' <= digit_char(d) <= '9',
        digit_of(digit_char(d)) == d,
        '0' <= c <= '9' ==> digit_char(digit_of(c)) == c,
{
}

} // verus!
