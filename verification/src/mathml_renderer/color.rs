//! Colours given by their red, green and blue components.
use vstd::prelude::*;

use super::itoa::{append_u8_as_hex, hex_chars};

verus! {

/// A colour with 8-bit red, green and blue components.
#[derive(Debug, Clone, Copy)]
pub struct RGB {
    r: u8,
    g: u8,
    b: u8,
}

impl RGB {
    /// The red component.
    pub closed spec fn red(&self) -> u8 {
        self.r
    }

    /// The green component.
    pub closed spec fn green(&self) -> u8 {
        self.g
    }

    /// The blue component.
    pub closed spec fn blue(&self) -> u8 {
        self.b
    }

    /// The colour with the given components.
    pub fn new(r: u8, g: u8, b: u8) -> (c: Self)
        ensures
            c.red() == r,
            c.green() == g,
            c.blue() == b,
    {
        RGB { r, g, b }
    }

    /// Appends the colour in the form `#RRGGBB` (upper-case hexadecimal) to `output`.
    pub fn append_as_hex(&self, output: &mut String)
        ensures
            final(output)@ == old(output)@ + seq!['#'] + hex_chars(self.red())
                + hex_chars(self.green()) + hex_chars(self.blue()),
    {
        output.push('#');
        append_u8_as_hex(output, self.r);
        append_u8_as_hex(output, self.g);
        append_u8_as_hex(output, self.b);
    }
}

} // verus!
