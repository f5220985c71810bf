//! Parsing the specifications that LaTeX commands take as arguments: length
//! units and column specifications.
use vstd::prelude::*;
use vstd::string::StrSliceExecFns;

use crate::renderer::arena::{dropless_alloc_slice, Arena, ArenaSliceItem};
use crate::renderer::table::ColumnAlignment;

verus! {

broadcast use vstd::string::group_string_axioms;

#[derive(Debug, Clone, Copy, PartialEq, Eq, Structural)]
pub enum LaTeXUnit {
    /// Point
    Pt,
    /// Millimeter
    Mm,
    /// Centimeter
    Cm,
    /// Inch
    In,
    /// roughly the height of an 'x' (lowercase) in the current font
    Ex,
    /// roughly the width of an 'M' (uppercase) in the current font
    Em,
    /// math unit equal to 1/18 em, where em is taken from the math symbols family
    Mu,
    /// so-called "special points", a low-level unit of measure where 65536sp=1pt
    Sp,
}

/// Whether `c` is the lower-case ASCII letter `lower` or its upper-case form.
pub open spec fn is_letter_ignoring_case(c: char, lower: char) -> bool {
    c == lower || c as int + 32 == lower as int
}

/// Whether `s` is the two-letter name `a` `b` in any mix of ASCII cases.
pub open spec fn is_unit_name(s: Seq<char>, a: char, b: char) -> bool {
    s.len() == 2 && is_letter_ignoring_case(s[0], a) && is_letter_ignoring_case(s[1], b)
}

/// The unit named `s`, ignoring ASCII case (`pt`, `mm`, `cm`, `in`, `ex`, `em`, `mu`, `sp`).
pub open spec fn unit_from_name(s: Seq<char>) -> Option<LaTeXUnit> {
    if is_unit_name(s, 'p', 't') {
        Some(LaTeXUnit::Pt)
    } else if is_unit_name(s, 'm', 'm') {
        Some(LaTeXUnit::Mm)
    } else if is_unit_name(s, 'c', 'm') {
        Some(LaTeXUnit::Cm)
    } else if is_unit_name(s, 'i', 'n') {
        Some(LaTeXUnit::In)
    } else if is_unit_name(s, 'e', 'x') {
        Some(LaTeXUnit::Ex)
    } else if is_unit_name(s, 'e', 'm') {
        Some(LaTeXUnit::Em)
    } else if is_unit_name(s, 'm', 'u') {
        Some(LaTeXUnit::Mu)
    } else if is_unit_name(s, 's', 'p') {
        Some(LaTeXUnit::Sp)
    } else {
        None
    }
}

fn letter_ignoring_case(c: char, lower: char) -> (r: bool)
    requires
        'a' <= lower <= 'z',
    ensures
        r == is_letter_ignoring_case(c, lower),
{
    c == lower || (c as u32) + 32 == lower as u32
}

/// The characters of `s`.
pub(crate) fn collect_chars(s: &str) -> (v: Vec<char>)
    ensures
        v@ == s@,
{
    let mut v: Vec<char> = Vec::new();
    for ch in it: s.chars()
        invariant
            it.seq() == s@,
            v@ == s@.take(it.index() as int),
    {
        v.push(ch);
        assert(s@.take(it.index() + 1) == v@);
    }
    assert(s@.take(s@.len() as int) == s@);
    v
}

impl<'a> TryFrom<&'a str> for LaTeXUnit {
    type Error = ();

    /// The unit named `s`, ignoring ASCII case.
    fn try_from(s: &'a str) -> (r: Result<Self, Self::Error>) {
        let chars = collect_chars(s);
        if chars.len() != 2 {
            return Err(());
        }
        let (a, b) = (chars[0], chars[1]);
        if letter_ignoring_case(a, 'p') && letter_ignoring_case(b, 't') {
            Ok(LaTeXUnit::Pt)
        } else if letter_ignoring_case(a, 'm') && letter_ignoring_case(b, 'm') {
            Ok(LaTeXUnit::Mm)
        } else if letter_ignoring_case(a, 'c') && letter_ignoring_case(b, 'm') {
            Ok(LaTeXUnit::Cm)
        } else if letter_ignoring_case(a, 'i') && letter_ignoring_case(b, 'n') {
            Ok(LaTeXUnit::In)
        } else if letter_ignoring_case(a, 'e') && letter_ignoring_case(b, 'x') {
            Ok(LaTeXUnit::Ex)
        } else if letter_ignoring_case(a, 'e') && letter_ignoring_case(b, 'm') {
            Ok(LaTeXUnit::Em)
        } else if letter_ignoring_case(a, 'm') && letter_ignoring_case(b, 'u') {
            Ok(LaTeXUnit::Mu)
        } else if letter_ignoring_case(a, 's') && letter_ignoring_case(b, 'p') {
            Ok(LaTeXUnit::Sp)
        } else {
            Err(())
        }
    }
}

impl<'a> vstd::std_specs::convert::TryFromSpecImpl<&'a str> for LaTeXUnit {
    open spec fn obeys_try_from_spec() -> bool {
        true
    }

    open spec fn try_from_spec(s: &'a str) -> Result<Self, ()> {
        match unit_from_name(s@) {
            Some(u) => Ok(u),
            None => Err(()),
        }
    }
}

/// Splits a length specification such as `1.5em` into the text of its number,
/// everything before the last two characters, and its unit, which the last two
/// characters name (ignoring ASCII case). `None` when there are fewer than two
/// characters or they name no unit. Reading the number is left to the caller.
pub fn split_length_specification(s: &str) -> (r: Option<(&str, LaTeXUnit)>)
    ensures
        r is Some <==> s@.len() >= 2 && unit_from_name(s@.subrange(s@.len() - 2, s@.len() as int)) is Some,
        r matches Some((digits, unit)) ==> digits@ == s@.subrange(0, s@.len() - 2) && Some(unit)
            == unit_from_name(s@.subrange(s@.len() - 2, s@.len() as int)),
{
    let n = s.unicode_len();
    if n < 2 {
        return None;
    }
    let digits = s.substring_char(0, n - 2);
    let unit = s.substring_char(n - 2, n);
    match LaTeXUnit::try_from(unit) {
        Ok(u) => Some((digits, u)),
        Err(_) => None,
    }
}

/// One column of an `array`: its alignment (none for a column that is only a
/// vertical line) and whether a vertical line follows it.
#[derive(Debug, Clone, Copy, PartialEq, Eq, Structural)]
pub struct ColumnSpec {
    pub alignment: Option<ColumnAlignment>,
    pub with_line: bool,
}

impl ArenaSliceItem for ColumnSpec {}

/// A parsed column specification.
#[derive(Debug, PartialEq)]
pub struct ArraySpec<'arena> {
    pub begins_with_line: bool,
    pub column_spec: &'arena [ColumnSpec],
}

/// ASCII whitespace: space, tab, line feed, form feed and carriage return.
pub open spec fn is_ascii_ws(c: char) -> bool {
    c == ' ' || c == '\t' || c == '\n' || c == '\x0C' || c == '\r'
}

/// `t` without its leading ASCII whitespace.
pub open spec fn skip_ws(t: Seq<char>) -> Seq<char>
    decreases t.len(),
{
    if t.len() > 0 && is_ascii_ws(t[0]) {
        skip_ws(t.drop_first())
    } else {
        t
    }
}

/// Skipping whitespace never makes a sequence longer.
pub proof fn lemma_skip_ws_len(t: Seq<char>)
    ensures
        skip_ws(t).len() <= t.len(),
    decreases t.len(),
{
    if t.len() > 0 && is_ascii_ws(t[0]) {
        lemma_skip_ws_len(t.drop_first());
    }
}

/// The alignment that the letters `l`, `c` and `r` stand for.
pub open spec fn alignment_of(c: char) -> Option<ColumnAlignment> {
    if c == 'l' {
        Some(ColumnAlignment::LeftJustified)
    } else if c == 'c' {
        Some(ColumnAlignment::Centered)
    } else if c == 'r' {
        Some(ColumnAlignment::RightJustified)
    } else {
        None
    }
}

/// The columns of `t` and whether any of them has content, or `None` when
/// `t` holds a character other than `l`, `c`, `r`, `|` and whitespace. A letter
/// gives a column, followed by a line when the next non-whitespace character is
/// `|`; any other `|` gives a column that is only a line.
pub open spec fn parse_columns(t: Seq<char>) -> Option<(Seq<ColumnSpec>, bool)>
    decreases t.len(),
{
    if t.len() == 0 {
        Some((Seq::empty(), false))
    } else if alignment_of(t[0]) is Some {
        let r2 = skip_ws(t.drop_first());
        let with_line = r2.len() > 0 && r2[0] == '|';
        let r3 = if with_line {
            r2.drop_first()
        } else {
            r2
        };
        proof {
            lemma_skip_ws_len(t.drop_first());
        }
        match parse_columns(r3) {
            Some((cs, _)) => Some(
                (seq![ColumnSpec { alignment: alignment_of(t[0]), with_line }] + cs, true),
            ),
            None => None,
        }
    } else if t[0] == '|' {
        match parse_columns(t.drop_first()) {
            Some((cs, h)) => Some((seq![ColumnSpec { alignment: None, with_line: true }] + cs, h)),
            None => None,
        }
    } else if is_ascii_ws(t[0]) {
        parse_columns(t.drop_first())
    } else {
        None
    }
}

/// The meaning of a column specification such as `l|c|r`: whether it begins
/// with a line, and its columns. `None` for a string that is not ASCII, that is
/// empty after leading whitespace, that holds other characters, or that has no
/// content column.
pub open spec fn column_specification(s: Seq<char>) -> Option<(bool, Seq<ColumnSpec>)> {
    let t = skip_ws(s);
    if !vstd::utf8::is_ascii_chars(s) || t.len() == 0 {
        None
    } else {
        let begins = t[0] == '|';
        let body = if begins {
            t.drop_first()
        } else {
            t
        };
        match parse_columns(body) {
            Some((cs, h)) => if cs.len() == 0 || !h {
                None
            } else {
                Some((begins, cs))
            },
            None => None,
        }
    }
}

fn is_ws(c: char) -> (r: bool)
    ensures
        r == is_ascii_ws(c),
{
    c == ' ' || c == '\t' || c == '\n' || c == '\x0C' || c == '\r'
}

/// The index of the first non-whitespace character at or after `i`.
fn skip_whitespace(chars: &Vec<char>, i: usize) -> (j: usize)
    requires
        i <= chars@.len(),
    ensures
        i <= j <= chars@.len(),
        chars@.subrange(j as int, chars@.len() as int) == skip_ws(
            chars@.subrange(i as int, chars@.len() as int),
        ),
{
    let n = chars.len();
    let mut j = i;
    while j < n && is_ws(chars[j])
        invariant
            n == chars@.len(),
            i <= j <= n,
            skip_ws(chars@.subrange(i as int, n as int)) == skip_ws(chars@.subrange(j as int, n as int)),
        decreases n - j,
    {
        assert(chars@.subrange(j as int, n as int).drop_first() == chars@.subrange(j + 1, n as int));
        j = j + 1;
    }
    j
}

/// Parses a column specification string in the format "l|c|r" where:
/// - 'l', 'c', 'r' indicate left, center, and right alignment
/// - '|' indicates a vertical line between columns
/// - The specification may begin with a vertical line
pub fn parse_column_specification<'arena>(s: &str, arena: &'arena Arena) -> (r: Option<ArraySpec<'arena>>)
    ensures
        match r {
            Some(spec) => column_specification(s@) == Some((spec.begins_with_line, spec.column_spec@)),
            None => column_specification(s@) is None,
        },
{
    if !s.is_ascii() {
        return None;
    }
    let chars = collect_chars(s);
    let n = chars.len();
    assert(chars@.subrange(0, n as int) == s@);
    let mut i = skip_whitespace(&chars, 0);
    if i == n {
        return None;
    }
    let begins_with_line = chars[i] == '|';
    if begins_with_line {
        i = i + 1;
    }
    let ghost start = i;
    let ghost body = chars@.subrange(start as int, n as int);
    assert(body == if begins_with_line {
        skip_ws(s@).drop_first()
    } else {
        skip_ws(s@)
    });
    let mut column_spec: Vec<ColumnSpec> = Vec::new();
    let mut has_content_column = false;
    while i < n
        invariant
            n == chars@.len(),
            chars@ == s@,
            start <= i <= n,
            body == chars@.subrange(start as int, n as int),
            vstd::utf8::is_ascii_chars(s@),
            skip_ws(s@).len() > 0,
            begins_with_line == (skip_ws(s@)[0] == '|'),
            body == if begins_with_line {
                skip_ws(s@).drop_first()
            } else {
                skip_ws(s@)
            },
            match parse_columns(chars@.subrange(i as int, n as int)) {
                Some((cs, h)) => parse_columns(body) == Some((column_spec@ + cs, has_content_column || h)),
                None => parse_columns(body) is None,
            },
        decreases n - i,
    {
        let ghost t = chars@.subrange(i as int, n as int);
        let ch = chars[i];
        assert(t[0] == ch);
        i = i + 1;
        assert(t.drop_first() == chars@.subrange(i as int, n as int));
        if ch == 'l' || ch == 'c' || ch == 'r' {
            let alignment = if ch == 'l' {
                Some(ColumnAlignment::LeftJustified)
            } else if ch == 'c' {
                Some(ColumnAlignment::Centered)
            } else {
                Some(ColumnAlignment::RightJustified)
            };
            i = skip_whitespace(&chars, i);
            let with_line = i < n && chars[i] == '|';
            if with_line {
                assert(chars@.subrange(i as int, n as int).drop_first() == chars@.subrange(i + 1, n as int));
                i = i + 1;
            }
            let ghost old_cols = column_spec@;
            column_spec.push(ColumnSpec { alignment, with_line });
            has_content_column = true;
            proof {
                let entry = ColumnSpec { alignment, with_line };
                assert(column_spec@ == old_cols + seq![entry]);
                match parse_columns(chars@.subrange(i as int, n as int)) {
                    Some((cs, h)) => {
                        assert(old_cols + (seq![entry] + cs) == column_spec@ + cs);
                    },
                    None => {},
                }
            }
        } else if ch == '|' {
            let ghost old_cols = column_spec@;
            column_spec.push(ColumnSpec { alignment: None, with_line: true });
            proof {
                let entry = ColumnSpec { alignment: None, with_line: true };
                match parse_columns(chars@.subrange(i as int, n as int)) {
                    Some((cs, h)) => {
                        assert(old_cols + (seq![entry] + cs) == column_spec@ + cs);
                    },
                    None => {},
                }
            }
        } else if is_ws(ch) {
        } else {
            return None;
        }
    }
    assert(chars@.subrange(n as int, n as int) == Seq::<char>::empty());
    assert(column_spec@ + Seq::<ColumnSpec>::empty() == column_spec@);
    if column_spec.len() == 0 || !has_content_column {
        return None;
    }
    let column_spec = dropless_alloc_slice(&arena.inner, column_spec.as_slice());
    Some(ArraySpec { begins_with_line, column_spec })
}

} // verus!
