//! Options of a conversion: display mode, pretty printing, and macro names.
use vstd::prelude::*;

verus! {

/// Display mode for the LaTeX math equations.
#[derive(Debug, Clone, Copy, PartialEq, Eq, Structural)]
pub enum MathDisplay {
    /// For inline equations, like those in `$...$` in LaTeX.
    Inline,
    /// For block equations (or "display style" equations), like those in `$$...$$` in LaTeX.
    Block,
}

/// Configuration for pretty-printing the MathML output.
///
/// Pretty-printing means that newlines and indentation is added to the MathML output, to make it
/// easier to read.
#[derive(Debug, Clone, Copy, PartialEq, Eq, Structural)]
#[non_exhaustive]
pub enum PrettyPrint {
    /// Never pretty print.
    Never,
    /// Always pretty print.
    Always,
    /// Pretty print for block equations only.
    Auto,
}

impl Default for PrettyPrint {
    fn default() -> (r: Self)
        ensures
            r == PrettyPrint::Never,
    {
        PrettyPrint::Never
    }
}

/// Whether `c` is an ASCII letter.
pub open spec fn is_ascii_letter(c: char) -> bool {
    ('A' <= c <= 'Z') || ('a' <= c <= 'z')
}

/// A macro name is valid when it is a single character (any character), or
/// consists of two or more ASCII letters.
pub open spec fn valid_macro_name(s: Seq<char>) -> bool {
    if s.len() == 0 {
        false
    } else if s.len() == 1 {
        true
    } else {
        forall|i: int| 0 <= i < s.len() ==> is_ascii_letter(#[trigger] s[i])
    }
}

/// Whether `s` may be used as the name of a custom macro.
pub fn is_valid_macro_name(s: &str) -> (r: bool)
    ensures
        r == valid_macro_name(s@),
{
    broadcast use vstd::string::group_string_axioms;

    let mut count: usize = 0;
    let mut all_letters = true;
    for ch in it: s.chars()
        invariant
            it.seq() == s@,
            count == if it.index() < 2 { it.index() as int } else { 2 },
            all_letters == forall|i: int| 0 <= i < it.index() ==> is_ascii_letter(#[trigger] s@[i]),
    {
        if count < 2 {
            count = count + 1;
        }
        if !(('A' <= ch && ch <= 'Z') || ('a' <= ch && ch <= 'z')) {
            all_letters = false;
        }
    }
    if count == 0 {
        false
    } else if count == 1 {
        true
    } else {
        all_letters
    }
}

/// The options of a configuration that shape the `math` element.
#[derive(Debug, Clone, Copy)]
pub struct Flags {
    pub pretty_print: PrettyPrint,
    /// Whether the `math` tag names the MathML namespace.
    pub xml_namespace: bool,
}

/// Whether output is pretty-printed: always, or for block equations only.
pub open spec fn pretty_prints(p: PrettyPrint, display: MathDisplay) -> bool {
    p == PrettyPrint::Always || (p == PrettyPrint::Auto && display == MathDisplay::Block)
}

/// The opening `math` tag: with the namespace if asked for, and marked as a
/// block for block equations.
pub open spec fn math_open_tag(flags: Flags, display: MathDisplay) -> Seq<char> {
    "<math"@ + (if flags.xml_namespace {
        " xmlns=\"http://www.w3.org/1998/Math/MathML\""@
    } else {
        Seq::empty()
    }) + (if display == MathDisplay::Block {
        " display=\"block\""@
    } else {
        Seq::empty()
    }) + ">"@
}

impl Flags {
    /// Whether an equation shown as `display` is pretty-printed.
    pub fn pretty_print_for(&self, display: MathDisplay) -> (r: bool)
        ensures
            r == pretty_prints(self.pretty_print, display),
    {
        matches!(self.pretty_print, PrettyPrint::Always) || (matches!(self.pretty_print, PrettyPrint::Auto)
            && display == MathDisplay::Block)
    }

    /// The indentation level of the nodes of an equation shown as `display`:
    /// 1 when pretty-printing, else 0 (no line breaks at all).
    pub fn base_indent(&self, display: MathDisplay) -> (r: usize)
        ensures
            r == (if pretty_prints(self.pretty_print, display) {
                1usize
            } else {
                0usize
            }),
    {
        if self.pretty_print_for(display) {
            1
        } else {
            0
        }
    }

    /// The `math` element of an equation shown as `display` whose nodes, written
    /// at `self.base_indent(display)`, are `body`: a pretty-printed element ends
    /// its last line before the closing tag.
    pub fn math_element(&self, display: MathDisplay, body: &str) -> (r: String)
        ensures
            r@ == math_open_tag(*self, display) + body@ + (if pretty_prints(self.pretty_print, display) {
                seq!['\n']
            } else {
                Seq::empty()
            }) + "</math>"@,
    {
        let mut output = String::new();
        output.push_str("<math");
        if self.xml_namespace {
            output.push_str(" xmlns=\"http://www.w3.org/1998/Math/MathML\"");
        }
        if display == MathDisplay::Block {
            output.push_str(" display=\"block\"");
        }
        output.push_str(">");
        output.push_str(body);
        if self.pretty_print_for(display) {
            output.push('\n');
        }
        output.push_str("</math>");
        output
    }
}

} // verus!
