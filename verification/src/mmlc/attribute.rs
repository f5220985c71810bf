use vstd::prelude::*;

use crate::mathml_renderer::itoa::{decimal_chars, fmt_u32};

verus! {

/// A string holding the characters of `s`.
fn owned(s: &str) -> (r: String)
    ensures
        r@ == s@,
{
    let mut r = String::new();
    r.push_str(s);
    r
}

/// The `mathvariant` attribute of `<mi>`.
#[derive(Debug, Clone, Copy, PartialEq, Eq, Structural)]
pub enum MathVariant {
    Normal,
}

impl MathVariant {
    /// The attribute as written into a tag, with a leading space.
    pub fn to_string(&self) -> (r: String)
        ensures
            r@ == " mathvariant=\"normal\""@,
    {
        owned(" mathvariant=\"normal\"")
    }
}

/// The value of the `accent` attribute.
#[derive(Debug, Clone, Copy, PartialEq, Eq, Structural)]
pub enum Accent {
    True,
    False,
}

impl Accent {
    /// `true` or `false`.
    pub fn to_string(&self) -> (r: String)
        ensures
            r@ == match self {
                Accent::True => "true"@,
                Accent::False => "false"@,
            },
    {
        match self {
            Accent::True => owned("true"),
            Accent::False => owned("false"),
        }
    }
}

/// The thickness of a fraction line.
#[derive(Debug, Clone, Copy, PartialEq, Eq, Structural)]
pub enum LineThickness {
    Thin,
    Medium,
    Thick,
    Length(u8),
}

impl LineThickness {
    /// The `linethickness` attribute with a leading space; nothing for the
    /// default (medium) thickness.
    pub fn to_string(&self) -> (r: String)
        ensures
            r@ == match self {
                LineThickness::Thin => " linethickness=\"thin\""@,
                LineThickness::Medium => Seq::<char>::empty(),
                LineThickness::Thick => " linethickness=\"medium\""@,
                LineThickness::Length(l) => " linethickness=\""@ + decimal_chars(*l as nat) + "\""@,
            },
    {
        match self {
            LineThickness::Thin => owned(" linethickness=\"thin\""),
            LineThickness::Medium => String::new(),
            LineThickness::Thick => owned(" linethickness=\"medium\""),
            LineThickness::Length(l) => {
                let mut r = owned(" linethickness=\"");
                let digits = fmt_u32(*l as u32);
                r.push_str(digits.as_str());
                r.push_str("\"");
                r
            },
        }
    }
}

/// The `displaystyle` attribute.
#[derive(Debug, Clone, Copy, PartialEq, Eq, Structural)]
pub enum DisplayStyle {
    True,
    False,
}

impl DisplayStyle {
    /// The attribute with a leading space.
    pub fn to_string(&self) -> (r: String)
        ensures
            r@ == match self {
                DisplayStyle::True => " displaystyle=\"true\""@,
                DisplayStyle::False => " displaystyle=\"false\""@,
            },
    {
        match self {
            DisplayStyle::True => owned(" displaystyle=\"true\""),
            DisplayStyle::False => owned(" displaystyle=\"false\""),
        }
    }
}

/// The alignment of the columns of a table.
#[derive(Debug, Clone, Copy, PartialEq, Eq, Structural)]
pub enum Align {
    Center,
    Left,
    Alternating,
}

/// Mathematical alphanumeric styles that `TextTransform::transform` maps letters into.
#[derive(Debug, Clone, Copy, PartialEq, Eq, Structural)]
pub enum TextTransform {
    Bold,
    BoldFraktur,
    BoldItalic,
    BoldSansSerif,
    BoldScript,
    DoubleStruck,
    Fraktur,
    Italic,
    Monospace,
    SansSerif,
    SansSerifBoldItalic,
    SansSerifItalic,
    Script,
}

/// The character `offset` code points after `c`.
pub open spec fn shifted(c: char, offset: u32) -> char {
    ((c as u32) + offset) as char
}

fn shift(c: char, offset: u32) -> (r: char)
    requires
        crate::contracts::is_scalar_value((c as u32) + offset),
    ensures
        r as u32 == (c as u32) + offset,
{
    let v: u32 = c as u32 + offset;
    let r = core::char::from_u32(v).unwrap();
    assert(r as u32 == v);
    r
}

/// The code point of `c` after it is mapped into the alphanumeric style `tf`:
/// the letters, digits and Greek letters that the style covers move by a fixed
/// offset per range, a few letters map to characters of their own, and every
/// other character stays as it is.
pub open spec fn transformed_code_point(tf: TextTransform, c: char) -> int {
    match tf {
        TextTransform::Bold => {
            if 'A' <= c <= 'Z' { c as int + 0x1D3BF }
            else if 'a' <= c <= 'z' { c as int + 0x1D3B9 }
            else if 'Α' <= c <= 'Ρ' { c as int + 0x1D317 }
            else if 'Σ' <= c <= 'Ω' { c as int + 0x1D317 }
            else if 'α' <= c <= 'ω' { c as int + 0x1D311 }
            else if 'Ϝ' <= c <= 'ϝ' { c as int + 0x1D3EE }
            else if '0' <= c <= '9' { c as int + 0x1D79E }
            else if c == 'ϴ' { '𝚹' as int }
            else if c == '∇' { '𝛁' as int }
            else if c == '∂' { '𝛛' as int }
            else if c == 'ϵ' { '𝛜' as int }
            else if c == 'ϑ' { '𝛝' as int }
            else if c == 'ϰ' { '𝛞' as int }
            else if c == 'ϕ' { '𝛟' as int }
            else if c == 'ϱ' { '𝛠' as int }
            else if c == 'ϖ' { '𝛡' as int } else { c as int }
        },
        TextTransform::BoldFraktur => {
            if 'A' <= c <= 'Z' { c as int + 0x1D52B }
            else if 'a' <= c <= 'z' { c as int + 0x1D525 } else { c as int }
        },
        TextTransform::BoldItalic => {
            if 'A' <= c <= 'Z' { c as int + 0x1D427 }
            else if 'a' <= c <= 'z' { c as int + 0x1D421 }
            else if 'Α' <= c <= 'Ρ' { c as int + 0x1D38B }
            else if 'Σ' <= c <= 'Ω' { c as int + 0x1D38B }
            else if 'α' <= c <= 'ω' { c as int + 0x1D385 }
            else if c == 'ϴ' { '𝜭' as int }
            else if c == '∇' { '𝜵' as int }
            else if c == '∂' { '𝝏' as int }
            else if c == 'ϵ' { '𝝐' as int }
            else if c == 'ϑ' { '𝝑' as int }
            else if c == 'ϰ' { '𝝒' as int }
            else if c == 'ϕ' { '𝝓' as int }
            else if c == 'ϱ' { '𝝔' as int }
            else if c == 'ϖ' { '𝝕' as int } else { c as int }
        },
        TextTransform::BoldSansSerif => {
            if 'A' <= c <= 'Z' { c as int + 0x1D593 }
            else if 'a' <= c <= 'z' { c as int + 0x1D58D }
            else if 'Α' <= c <= 'Ρ' { c as int + 0x1D3C5 }
            else if 'Σ' <= c <= 'Ω' { c as int + 0x1D3C5 }
            else if 'α' <= c <= 'ω' { c as int + 0x1D3BF }
            else if '0' <= c <= '9' { c as int + 0x1D7BC }
            else if c == 'ϴ' { '𝝧' as int }
            else if c == '∇' { '𝝯' as int }
            else if c == '∂' { '𝞉' as int }
            else if c == 'ϵ' { '𝞊' as int }
            else if c == 'ϑ' { '𝞋' as int }
            else if c == 'ϰ' { '𝞌' as int }
            else if c == 'ϕ' { '𝞍' as int }
            else if c == 'ϱ' { '𝞎' as int }
            else if c == 'ϖ' { '𝞏' as int } else { c as int }
        },
        TextTransform::BoldScript => {
            if 'A' <= c <= 'Z' { c as int + 0x1D48F }
            else if 'a' <= c <= 'z' { c as int + 0x1D489 } else { c as int }
        },
        TextTransform::DoubleStruck => {
            if 'A' <= c <= 'B' { c as int + 0x1D4F7 }
            else if 'D' <= c <= 'G' { c as int + 0x1D4F7 }
            else if 'I' <= c <= 'M' { c as int + 0x1D4F7 }
            else if c == 'O' { c as int + 0x1D4F7 }
            else if 'P' <= c <= 'Q' { c as int + 0x20C9 }
            else if 'S' <= c <= 'Y' { c as int + 0x1D4F7 }
            else if 'a' <= c <= 'z' { c as int + 0x1D4F1 }
            else if '0' <= c <= '9' { c as int + 0x1D7A8 }
            else if c == 'C' { 'ℂ' as int }
            else if c == 'H' { 'ℍ' as int }
            else if c == 'N' { 'ℕ' as int }
            else if c == 'R' { 'ℝ' as int }
            else if c == 'Z' { 'ℤ' as int } else { c as int }
        },
        TextTransform::Fraktur => {
            if 'A' <= c <= 'B' { c as int + 0x1D4C3 }
            else if 'D' <= c <= 'G' { c as int + 0x1D4C3 }
            else if c == 'H' { c as int + 0x20C4 }
            else if c == 'I' { 'ℑ' as int }
            else if 'J' <= c <= 'Q' { c as int + 0x1D4C3 }
            else if 'S' <= c <= 'Y' { c as int + 0x1D4C3 }
            else if 'a' <= c <= 'z' { c as int + 0x1D4BD }
            else if c == 'C' { 'ℭ' as int }
            else if c == 'R' { 'ℜ' as int }
            else if c == 'Z' { 'ℨ' as int } else { c as int }
        },
        TextTransform::Italic => {
            if 'A' <= c <= 'Z' { c as int + 0x1D3F3 }
            else if 'a' <= c <= 'g' { c as int + 0x1D3ED }
            else if 'i' <= c <= 'z' { c as int + 0x1D3ED }
            else if 'Α' <= c <= 'Ρ' { c as int + 0x1D351 }
            else if 'Σ' <= c <= 'Ω' { c as int + 0x1D351 }
            else if 'α' <= c <= 'ω' { c as int + 0x1D34B }
            else if c == 'h' { 'ℎ' as int }
            else if c == 'ı' { '𝚤' as int }
            else if c == 'ȷ' { '𝚥' as int }
            else if c == 'ϴ' { '𝛳' as int }
            else if c == '∇' { '𝛻' as int }
            else if c == '∂' { '𝜕' as int }
            else if c == 'ϵ' { '𝜖' as int }
            else if c == 'ϑ' { '𝜗' as int }
            else if c == 'ϰ' { '𝜘' as int }
            else if c == 'ϕ' { '𝜙' as int }
            else if c == 'ϱ' { '𝜚' as int }
            else if c == 'ϖ' { '𝜛' as int } else { c as int }
        },
        TextTransform::Monospace => {
            if 'A' <= c <= 'Z' { c as int + 0x1D62F }
            else if 'a' <= c <= 'z' { c as int + 0x1D629 }
            else if '0' <= c <= '9' { c as int + 0x1D7C6 } else { c as int }
        },
        TextTransform::SansSerif => {
            if 'A' <= c <= 'Z' { c as int + 0x1D55F }
            else if 'a' <= c <= 'z' { c as int + 0x1D559 }
            else if '0' <= c <= '9' { c as int + 0x1D7B2 } else { c as int }
        },
        TextTransform::SansSerifBoldItalic => {
            if 'A' <= c <= 'Z' { c as int + 0x1D5FB }
            else if 'a' <= c <= 'z' { c as int + 0x1D5F5 }
            else if 'Α' <= c <= 'Ρ' { c as int + 0x1D3FF }
            else if 'Σ' <= c <= 'Ω' { c as int + 0x1D3FF }
            else if 'α' <= c <= 'ω' { c as int + 0x1D3F9 }
            else if c == 'ϴ' { '𝞡' as int }
            else if c == '∇' { '𝞩' as int }
            else if c == '∂' { '𝟃' as int }
            else if c == 'ϵ' { '𝟄' as int }
            else if c == 'ϑ' { '𝟅' as int }
            else if c == 'ϰ' { '𝟆' as int }
            else if c == 'ϕ' { '𝟇' as int }
            else if c == 'ϱ' { '𝟈' as int }
            else if c == 'ϖ' { '𝟉' as int } else { c as int }
        },
        TextTransform::SansSerifItalic => {
            if 'A' <= c <= 'Z' { c as int + 0x1D5C7 }
            else if 'a' <= c <= 'z' { c as int + 0x1D5C1 } else { c as int }
        },
        TextTransform::Script => {
            if 'C' <= c <= 'D' { c as int + 0x1D45B }
            else if 'E' <= c <= 'F' { c as int + 0x20EB }
            else if c == 'H' { c as int + 0x20C3 }
            else if c == 'I' { 'ℐ' as int }
            else if 'J' <= c <= 'K' { c as int + 0x1D45B }
            else if 'N' <= c <= 'Q' { c as int + 0x1D45B }
            else if 'S' <= c <= 'Z' { c as int + 0x1D45B }
            else if 'a' <= c <= 'd' { c as int + 0x1D455 }
            else if 'h' <= c <= 'n' { c as int + 0x1D455 }
            else if 'p' <= c <= 'z' { c as int + 0x1D455 }
            else if c == 'A' { '𝒜' as int }
            else if c == 'B' { 'ℬ' as int }
            else if c == 'G' { '𝒢' as int }
            else if c == 'L' { 'ℒ' as int }
            else if c == 'M' { 'ℳ' as int }
            else if c == 'R' { 'ℛ' as int }
            else if c == 'e' { 'ℯ' as int }
            else if c == 'f' { '𝒻' as int }
            else if c == 'g' { 'ℊ' as int }
            else if c == 'o' { 'ℴ' as int } else { c as int }
        },
    }
}

/// Where the 52 letters of a style (`A`–`Z`, then `a`–`z`) begin in the
/// Mathematical Alphanumeric Symbols block of Unicode.
pub open spec fn alphabet_start(tf: TextTransform) -> int {
    match tf {
        TextTransform::Bold => 0x1D400,
        TextTransform::Italic => 0x1D434,
        TextTransform::BoldItalic => 0x1D468,
        TextTransform::Script => 0x1D49C,
        TextTransform::BoldScript => 0x1D4D0,
        TextTransform::Fraktur => 0x1D504,
        TextTransform::DoubleStruck => 0x1D538,
        TextTransform::BoldFraktur => 0x1D56C,
        TextTransform::SansSerif => 0x1D5A0,
        TextTransform::BoldSansSerif => 0x1D5D4,
        TextTransform::SansSerifItalic => 0x1D608,
        TextTransform::SansSerifBoldItalic => 0x1D63C,
        TextTransform::Monospace => 0x1D670,
    }
}

/// Whether `c` is an ASCII letter.
pub open spec fn is_ascii_letter(c: char) -> bool {
    ('A' <= c <= 'Z') || ('a' <= c <= 'z')
}

/// The place of an ASCII letter in a style's alphabet: 0 to 25 for `A`–`Z`,
/// 26 to 51 for `a`–`z`.
pub open spec fn letter_index(c: char) -> int {
    if 'A' <= c <= 'Z' {
        c as int - 'A' as int
    } else {
        c as int - 'a' as int + 26
    }
}

/// The reserved code points of the letter alphabets of the Mathematical
/// Alphanumeric Symbols block, with the character that Unicode assigns in
/// their place (in the Letterlike Symbols block); `None` for every other
/// code point.
pub open spec fn letterlike_replacement(cp: int) -> Option<int> {
    if cp == 0x1D455 { Some(0x210E) }
    else if cp == 0x1D49D { Some(0x212C) }
    else if cp == 0x1D4A0 { Some(0x2130) }
    else if cp == 0x1D4A1 { Some(0x2131) }
    else if cp == 0x1D4A3 { Some(0x210B) }
    else if cp == 0x1D4A4 { Some(0x2110) }
    else if cp == 0x1D4A7 { Some(0x2112) }
    else if cp == 0x1D4A8 { Some(0x2133) }
    else if cp == 0x1D4AD { Some(0x211B) }
    else if cp == 0x1D4BA { Some(0x212F) }
    else if cp == 0x1D4BC { Some(0x210A) }
    else if cp == 0x1D4C4 { Some(0x2134) }
    else if cp == 0x1D506 { Some(0x212D) }
    else if cp == 0x1D50B { Some(0x210C) }
    else if cp == 0x1D50C { Some(0x2111) }
    else if cp == 0x1D515 { Some(0x211C) }
    else if cp == 0x1D51D { Some(0x2128) }
    else if cp == 0x1D53A { Some(0x2102) }
    else if cp == 0x1D53F { Some(0x210D) }
    else if cp == 0x1D545 { Some(0x2115) }
    else if cp == 0x1D547 { Some(0x2119) }
    else if cp == 0x1D548 { Some(0x211A) }
    else if cp == 0x1D549 { Some(0x211D) }
    else if cp == 0x1D551 { Some(0x2124) }
    else { None }
}

/// Where the ten digits of a style begin, for the styles that have digits.
pub open spec fn digits_start(tf: TextTransform) -> Option<int> {
    match tf {
        TextTransform::Bold => Some(0x1D7CE),
        TextTransform::DoubleStruck => Some(0x1D7D8),
        TextTransform::SansSerif => Some(0x1D7E2),
        TextTransform::BoldSansSerif => Some(0x1D7EC),
        TextTransform::Monospace => Some(0x1D7F6),
        _ => None,
    }
}

/// Every ASCII letter goes to its slot in the style's alphabet, except where
/// Unicode leaves that slot reserved: there it goes to the letterlike
/// character that Unicode assigns in its place (so `\mathbb{Z}` gives `ℤ`,
/// `\mathcal{B}` gives `ℬ`, `\mathfrak{H}` gives `ℌ`, and italic `h` gives
/// `ℎ`). No letter ever lands on a reserved code point.
pub proof fn lemma_letters_take_their_slot(tf: TextTransform, c: char)
    requires
        is_ascii_letter(c),
    ensures
        ({
            let slot = alphabet_start(tf) + letter_index(c);
            match letterlike_replacement(slot) {
                None => transformed_code_point(tf, c) == slot,
                Some(r) => transformed_code_point(tf, c) == r,
            }
        }),
        letterlike_replacement(transformed_code_point(tf, c)) is None,
{
}

/// Digits go to the style's digits where the style has them, and are kept
/// as they are otherwise.
pub proof fn lemma_digits(tf: TextTransform, c: char)
    requires
        '0' <= c <= '9',
    ensures
        transformed_code_point(tf, c) == match digits_start(tf) {
            Some(start) => start + (c as int - '0' as int),
            None => c as int,
        },
{
}

/// Letters of different places in the alphabet stay different in every style.
pub proof fn lemma_letters_stay_distinct(tf: TextTransform, c: char, d: char)
    requires
        is_ascii_letter(c),
        is_ascii_letter(d),
        c != d,
    ensures
        transformed_code_point(tf, c) != transformed_code_point(tf, d),
{
}

/// The place of a Greek character in Unicode's mathematical Greek alphabets:
/// `Α`–`Ρ` at 0 to 16, `ϴ` at 17, `Σ`–`Ω` at 18 to 24, `∇` at 25, `α`–`ω` at
/// 26 to 50, then `∂`, `ϵ`, `ϑ`, `ϰ`, `ϕ`, `ϱ`, `ϖ` at 51 to 57.
pub open spec fn greek_index(c: char) -> Option<int> {
    if 'Α' <= c <= 'Ρ' {
        Some(c as int - 'Α' as int)
    } else if c == 'ϴ' {
        Some(17)
    } else if 'Σ' <= c <= 'Ω' {
        Some(c as int - 'Σ' as int + 18)
    } else if c == '∇' {
        Some(25)
    } else if 'α' <= c <= 'ω' {
        Some(c as int - 'α' as int + 26)
    } else if c == '∂' {
        Some(51)
    } else if c == 'ϵ' {
        Some(52)
    } else if c == 'ϑ' {
        Some(53)
    } else if c == 'ϰ' {
        Some(54)
    } else if c == 'ϕ' {
        Some(55)
    } else if c == 'ϱ' {
        Some(56)
    } else if c == 'ϖ' {
        Some(57)
    } else {
        None
    }
}

/// Where the 58 Greek characters of a style begin, for the styles that have them.
pub open spec fn greek_start(tf: TextTransform) -> Option<int> {
    match tf {
        TextTransform::Bold => Some(0x1D6A8),
        TextTransform::Italic => Some(0x1D6E2),
        TextTransform::BoldItalic => Some(0x1D71C),
        TextTransform::BoldSansSerif => Some(0x1D756),
        TextTransform::SansSerifBoldItalic => Some(0x1D790),
        _ => None,
    }
}

/// Greek letters and symbols go to their place in the style's Greek
/// alphabet where the style has one, and are kept as they are otherwise.
pub proof fn lemma_greek(tf: TextTransform, c: char)
    requires
        greek_index(c) is Some,
    ensures
        transformed_code_point(tf, c) == match greek_start(tf) {
            Some(start) => start + greek_index(c)->0,
            None => c as int,
        },
{
}

/// Whether some style maps `c`: the ASCII letters and digits, the Greek
/// characters, the digamma (`Ϝ`, `ϝ`, bold only) and the dotless `ı` and `ȷ`
/// (italic only).
pub open spec fn has_math_forms(c: char) -> bool {
    is_ascii_letter(c) || ('0' <= c <= '9') || greek_index(c) is Some || c == 'Ϝ' || c == 'ϝ'
        || c == 'ı' || c == 'ȷ'
}

/// The characters that have mathematical forms only in some styles go to
/// those forms there (`Ϝ`, `ϝ` in bold, `ı`, `ȷ` in italic), and every other
/// character is kept as it is.
pub proof fn lemma_other_characters(tf: TextTransform, c: char)
    ensures
        !has_math_forms(c) ==> transformed_code_point(tf, c) == c as int,
        c == 'Ϝ' ==> transformed_code_point(tf, c) == if tf == TextTransform::Bold { 0x1D7CA } else { c as int },
        c == 'ϝ' ==> transformed_code_point(tf, c) == if tf == TextTransform::Bold { 0x1D7CB } else { c as int },
        c == 'ı' ==> transformed_code_point(tf, c) == if tf == TextTransform::Italic { 0x1D6A4 } else { c as int },
        c == 'ȷ' ==> transformed_code_point(tf, c) == if tf == TextTransform::Italic { 0x1D6A5 } else { c as int },
{
}

impl TextTransform {
    /// Maps `c` into this alphanumeric style.
    pub fn transform(&self, c: char) -> (r: char)
        ensures
            r as int == transformed_code_point(*self, c),
    {
        match self {
            TextTransform::Bold => {
                if 'A' <= c && c <= 'Z' {
                shift(c, 0x1D3BF)
            } else if 'a' <= c && c <= 'z' {
                shift(c, 0x1D3B9)
            } else if 'Α' <= c && c <= 'Ρ' {
                shift(c, 0x1D317)
            } else if 'Σ' <= c && c <= 'Ω' {
                shift(c, 0x1D317)
            } else if 'α' <= c && c <= 'ω' {
                shift(c, 0x1D311)
            } else if 'Ϝ' <= c && c <= 'ϝ' {
                shift(c, 0x1D3EE)
            } else if '0' <= c && c <= '9' {
                shift(c, 0x1D79E)
            } else if c == 'ϴ' {
                '𝚹'
            } else if c == '∇' {
                '𝛁'
            } else if c == '∂' {
                '𝛛'
            } else if c == 'ϵ' {
                '𝛜'
            } else if c == 'ϑ' {
                '𝛝'
            } else if c == 'ϰ' {
                '𝛞'
            } else if c == 'ϕ' {
                '𝛟'
            } else if c == 'ϱ' {
                '𝛠'
            } else if c == 'ϖ' {
                '𝛡'
            } else {
                c
            }
            },
            TextTransform::BoldFraktur => {
                if 'A' <= c && c <= 'Z' {
                shift(c, 0x1D52B)
            } else if 'a' <= c && c <= 'z' {
                shift(c, 0x1D525)
            } else {
                c
            }
            },
            TextTransform::BoldItalic => {
                if 'A' <= c && c <= 'Z' {
                shift(c, 0x1D427)
            } else if 'a' <= c && c <= 'z' {
                shift(c, 0x1D421)
            } else if 'Α' <= c && c <= 'Ρ' {
                shift(c, 0x1D38B)
            } else if 'Σ' <= c && c <= 'Ω' {
                shift(c, 0x1D38B)
            } else if 'α' <= c && c <= 'ω' {
                shift(c, 0x1D385)
            } else if c == 'ϴ' {
                '𝜭'
            } else if c == '∇' {
                '𝜵'
            } else if c == '∂' {
                '𝝏'
            } else if c == 'ϵ' {
                '𝝐'
            } else if c == 'ϑ' {
                '𝝑'
            } else if c == 'ϰ' {
                '𝝒'
            } else if c == 'ϕ' {
                '𝝓'
            } else if c == 'ϱ' {
                '𝝔'
            } else if c == 'ϖ' {
                '𝝕'
            } else {
                c
            }
            },
            TextTransform::BoldSansSerif => {
                if 'A' <= c && c <= 'Z' {
                shift(c, 0x1D593)
            } else if 'a' <= c && c <= 'z' {
                shift(c, 0x1D58D)
            } else if 'Α' <= c && c <= 'Ρ' {
                shift(c, 0x1D3C5)
            } else if 'Σ' <= c && c <= 'Ω' {
                shift(c, 0x1D3C5)
            } else if 'α' <= c && c <= 'ω' {
                shift(c, 0x1D3BF)
            } else if '0' <= c && c <= '9' {
                shift(c, 0x1D7BC)
            } else if c == 'ϴ' {
                '𝝧'
            } else if c == '∇' {
                '𝝯'
            } else if c == '∂' {
                '𝞉'
            } else if c == 'ϵ' {
                '𝞊'
            } else if c == 'ϑ' {
                '𝞋'
            } else if c == 'ϰ' {
                '𝞌'
            } else if c == 'ϕ' {
                '𝞍'
            } else if c == 'ϱ' {
                '𝞎'
            } else if c == 'ϖ' {
                '𝞏'
            } else {
                c
            }
            },
            TextTransform::BoldScript => {
                if 'A' <= c && c <= 'Z' {
                shift(c, 0x1D48F)
            } else if 'a' <= c && c <= 'z' {
                shift(c, 0x1D489)
            } else {
                c
            }
            },
            TextTransform::DoubleStruck => {
                if 'A' <= c && c <= 'B' {
                shift(c, 0x1D4F7)
            } else if 'D' <= c && c <= 'G' {
                shift(c, 0x1D4F7)
            } else if 'I' <= c && c <= 'M' {
                shift(c, 0x1D4F7)
            } else if c == 'O' {
                shift(c, 0x1D4F7)
            } else if 'P' <= c && c <= 'Q' {
                shift(c, 0x20C9)
            } else if 'S' <= c && c <= 'Y' {
                shift(c, 0x1D4F7)
            } else if 'a' <= c && c <= 'z' {
                shift(c, 0x1D4F1)
            } else if '0' <= c && c <= '9' {
                shift(c, 0x1D7A8)
            } else if c == 'C' {
                'ℂ'
            } else if c == 'H' {
                'ℍ'
            } else if c == 'N' {
                'ℕ'
            } else if c == 'R' {
                'ℝ'
            } else if c == 'Z' {
                'ℤ'
            } else {
                c
            }
            },
            TextTransform::Fraktur => {
                if 'A' <= c && c <= 'B' {
                shift(c, 0x1D4C3)
            } else if 'D' <= c && c <= 'G' {
                shift(c, 0x1D4C3)
            } else if c == 'H' {
                shift(c, 0x20C4)
            } else if c == 'I' {
                'ℑ'
            } else if 'J' <= c && c <= 'Q' {
                shift(c, 0x1D4C3)
            } else if 'S' <= c && c <= 'Y' {
                shift(c, 0x1D4C3)
            } else if 'a' <= c && c <= 'z' {
                shift(c, 0x1D4BD)
            } else if c == 'C' {
                'ℭ'
            } else if c == 'R' {
                'ℜ'
            } else if c == 'Z' {
                'ℨ'
            } else {
                c
            }
            },
            TextTransform::Italic => {
                if 'A' <= c && c <= 'Z' {
                shift(c, 0x1D3F3)
            } else if 'a' <= c && c <= 'g' {
                shift(c, 0x1D3ED)
            } else if 'i' <= c && c <= 'z' {
                shift(c, 0x1D3ED)
            } else if 'Α' <= c && c <= 'Ρ' {
                shift(c, 0x1D351)
            } else if 'Σ' <= c && c <= 'Ω' {
                shift(c, 0x1D351)
            } else if 'α' <= c && c <= 'ω' {
                shift(c, 0x1D34B)
            } else if c == 'h' {
                'ℎ'
            } else if c == 'ı' {
                '𝚤'
            } else if c == 'ȷ' {
                '𝚥'
            } else if c == 'ϴ' {
                '𝛳'
            } else if c == '∇' {
                '𝛻'
            } else if c == '∂' {
                '𝜕'
            } else if c == 'ϵ' {
                '𝜖'
            } else if c == 'ϑ' {
                '𝜗'
            } else if c == 'ϰ' {
                '𝜘'
            } else if c == 'ϕ' {
                '𝜙'
            } else if c == 'ϱ' {
                '𝜚'
            } else if c == 'ϖ' {
                '𝜛'
            } else {
                c
            }
            },
            TextTransform::Monospace => {
                if 'A' <= c && c <= 'Z' {
                shift(c, 0x1D62F)
            } else if 'a' <= c && c <= 'z' {
                shift(c, 0x1D629)
            } else if '0' <= c && c <= '9' {
                shift(c, 0x1D7C6)
            } else {
                c
            }
            },
            TextTransform::SansSerif => {
                if 'A' <= c && c <= 'Z' {
                shift(c, 0x1D55F)
            } else if 'a' <= c && c <= 'z' {
                shift(c, 0x1D559)
            } else if '0' <= c && c <= '9' {
                shift(c, 0x1D7B2)
            } else {
                c
            }
            },
            TextTransform::SansSerifBoldItalic => {
                if 'A' <= c && c <= 'Z' {
                shift(c, 0x1D5FB)
            } else if 'a' <= c && c <= 'z' {
                shift(c, 0x1D5F5)
            } else if 'Α' <= c && c <= 'Ρ' {
                shift(c, 0x1D3FF)
            } else if 'Σ' <= c && c <= 'Ω' {
                shift(c, 0x1D3FF)
            } else if 'α' <= c && c <= 'ω' {
                shift(c, 0x1D3F9)
            } else if c == 'ϴ' {
                '𝞡'
            } else if c == '∇' {
                '𝞩'
            } else if c == '∂' {
                '𝟃'
            } else if c == 'ϵ' {
                '𝟄'
            } else if c == 'ϑ' {
                '𝟅'
            } else if c == 'ϰ' {
                '𝟆'
            } else if c == 'ϕ' {
                '𝟇'
            } else if c == 'ϱ' {
                '𝟈'
            } else if c == 'ϖ' {
                '𝟉'
            } else {
                c
            }
            },
            TextTransform::SansSerifItalic => {
                if 'A' <= c && c <= 'Z' {
                shift(c, 0x1D5C7)
            } else if 'a' <= c && c <= 'z' {
                shift(c, 0x1D5C1)
            } else {
                c
            }
            },
            TextTransform::Script => {
                if 'C' <= c && c <= 'D' {
                shift(c, 0x1D45B)
            } else if 'E' <= c && c <= 'F' {
                shift(c, 0x20EB)
            } else if c == 'H' {
                shift(c, 0x20C3)
            } else if c == 'I' {
                'ℐ'
            } else if 'J' <= c && c <= 'K' {
                shift(c, 0x1D45B)
            } else if 'N' <= c && c <= 'Q' {
                shift(c, 0x1D45B)
            } else if 'S' <= c && c <= 'Z' {
                shift(c, 0x1D45B)
            } else if 'a' <= c && c <= 'd' {
                shift(c, 0x1D455)
            } else if 'h' <= c && c <= 'n' {
                shift(c, 0x1D455)
            } else if 'p' <= c && c <= 'z' {
                shift(c, 0x1D455)
            } else if c == 'A' {
                '𝒜'
            } else if c == 'B' {
                'ℬ'
            } else if c == 'G' {
                '𝒢'
            } else if c == 'L' {
                'ℒ'
            } else if c == 'M' {
                'ℳ'
            } else if c == 'R' {
                'ℛ'
            } else if c == 'e' {
                'ℯ'
            } else if c == 'f' {
                '𝒻'
            } else if c == 'g' {
                'ℊ'
            } else if c == 'o' {
                'ℴ'
            } else {
                c
            }
            },
        }
    }
}

} // verus!
