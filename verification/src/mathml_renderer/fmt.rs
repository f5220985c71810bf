//! Joining static string pieces, and line breaks with indentation.
use vstd::prelude::*;

verus! {

/// The concatenation of the strings in `parts`, in order.
pub open spec fn concat_strs(parts: Seq<&str>) -> Seq<char>
    decreases parts.len(),
{
    if parts.len() == 0 {
        Seq::empty()
    } else {
        concat_strs(parts.drop_last()) + parts.last()@
    }
}

/// A sequence of static strings that is written as their concatenation.
pub struct StrJoiner<'a> {
    parts: &'a [&'static str],
}

impl<'a> StrJoiner<'a> {
    /// The pieces, in order.
    pub closed spec fn parts(&self) -> Seq<&'static str> {
        self.parts@
    }

    /// A joiner over the pieces in `slice`.
    pub fn from_slice(slice: &'a [&'static str]) -> (j: Self)
        ensures
            j.parts() == slice@,
    {
        StrJoiner { parts: slice }
    }

    /// The concatenation of all pieces.
    pub fn to_string(&self) -> (r: String)
        ensures
            r@ == concat_strs(self.parts()),
    {
        let mut out = String::new();
        let n = self.parts.len();
        let mut i: usize = 0;
        while i < n
            invariant
                n == self.parts@.len(),
                0 <= i <= n,
                out@ == concat_strs(self.parts@.take(i as int)),
            decreases n - i,
        {
            assert(self.parts@.take(i + 1).drop_last() == self.parts@.take(i as int));
            out.push_str(self.parts[i]);
            i = i + 1;
        }
        assert(self.parts@.take(n as int) == self.parts@);
        out
    }
}

/// One level of indentation.
pub const INDENT: &'static str = "    ";

/// The text that `new_line_and_indent` appends for `indent_num`: nothing for
/// zero, otherwise a line break followed by four spaces per level.
pub open spec fn line_and_indent(indent_num: nat) -> Seq<char> {
    if indent_num == 0 {
        Seq::empty()
    } else {
        seq!['\n'] + Seq::new(4 * indent_num, |i: int| ' ')
    }
}

/// Starts a new line indented by `indent_num` levels, or does nothing when
/// `indent_num` is zero.
pub fn new_line_and_indent(s: &mut String, indent_num: usize)
    ensures
        final(s)@ == old(s)@ + line_and_indent(indent_num as nat),
{
    proof {
        reveal_strlit("    ");
    }
    if indent_num > 0 {
        s.push('\n');
    }
    let ghost start = s@;
    let mut k: usize = 0;
    while k < indent_num
        invariant
            0 <= k <= indent_num,
            s@ == start + Seq::new(4 * k as nat, |i: int| ' '),
            start == old(s)@ + (if indent_num > 0 { seq!['\n'] } else { Seq::<char>::empty() }),
            INDENT@ == seq![' ', ' ', ' ', ' '],
        decreases indent_num - k,
    {
        s.push_str(INDENT);
        k = k + 1;
        assert(s@ =~= start + Seq::new(4 * k as nat, |i: int| ' '));
    }
    assert(final(s)@ =~= old(s)@ + line_and_indent(indent_num as nat));
}

} // verus!
