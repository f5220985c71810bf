//! Escaping text for HTML content and for double-quoted HTML attributes.
use vstd::prelude::*;
use vstd::string::StringSliceAdditionalSpecFns;
use vstd::utf8::{
    char_u32_cast, encode_scalar, encode_utf8, encode_utf8_decode_utf8, encode_utf8_valid_utf8, is_char_boundary,
    is_char_boundary_iff_not_is_continuation_byte,
};

verus! {

/// `c` as it is written in HTML content: `&`, `<` and `>` become `&amp;`,
/// `&lt;` and `&gt;`.
pub open spec fn escape_content_char(c: char) -> Seq<char> {
    if c == '&' {
        "&amp;"@
    } else if c == '<' {
        "&lt;"@
    } else if c == '>' {
        "&gt;"@
    } else {
        seq![c]
    }
}

/// `c` as it is written in a double-quoted attribute: `&` and `"` become
/// `&amp;` and `&quot;`.
pub open spec fn escape_attribute_char(c: char) -> Seq<char> {
    if c == '&' {
        "&amp;"@
    } else if c == '"' {
        "&quot;"@
    } else {
        seq![c]
    }
}

/// `s` escaped for HTML content.
pub open spec fn escape_content(s: Seq<char>) -> Seq<char>
    decreases s.len(),
{
    if s.len() == 0 {
        Seq::empty()
    } else {
        escape_content(s.drop_last()) + escape_content_char(s.last())
    }
}

/// `s` escaped for a double-quoted attribute.
pub open spec fn escape_attribute(s: Seq<char>) -> Seq<char>
    decreases s.len(),
{
    if s.len() == 0 {
        Seq::empty()
    } else {
        escape_attribute(s.drop_last()) + escape_attribute_char(s.last())
    }
}

/// Whether the byte `b` is one of the three needles.
pub open spec fn is_needle(b: u8, n1: u8, n2: u8, n3: u8) -> bool {
    b == n1 || b == n2 || b == n3
}

/// `memchr::memchr3`: the position of the first byte of `haystack` that is
/// `n1`, `n2` or `n3`, or `None` when there is none, as its documentation
/// states.
#[verifier::external_body]
fn find_first_of3(n1: u8, n2: u8, n3: u8, haystack: &[u8]) -> (r: Option<usize>)
    ensures
        match r {
            Some(i) => i < haystack@.len() && is_needle(haystack@[i as int], n1, n2, n3) && forall|j: int|
                0 <= j < i ==> !is_needle(#[trigger] haystack@[j], n1, n2, n3),
            None => forall|j: int|
                0 <= j < haystack@.len() ==> !is_needle(#[trigger] haystack@[j], n1, n2, n3),
        },
{
    memchr::memchr3(n1, n2, n3, haystack)
}

/// The UTF-8 encoding of a concatenation is the concatenation of the encodings.
proof fn lemma_encode_concat(a: Seq<char>, b: Seq<char>)
    ensures
        encode_utf8(a + b) == encode_utf8(a) + encode_utf8(b),
    decreases a.len(),
{
    if a.len() == 0 {
        assert(a + b =~= b);
        assert(encode_utf8(a) + encode_utf8(b) =~= encode_utf8(b));
    } else {
        lemma_encode_concat(a.drop_first(), b);
        assert((a + b).drop_first() =~= a.drop_first() + b);
        assert((a + b)[0] == a[0]);
        assert(encode_scalar(a[0] as u32) + (encode_utf8(a.drop_first()) + encode_utf8(b)) =~= (
        encode_scalar(a[0] as u32) + encode_utf8(a.drop_first())) + encode_utf8(b));
    }
}

/// The bytes of the UTF-8 encoding of a character: its code alone below
/// `0x80`, else bytes of `0x80` and above.
proof fn lemma_encode_scalar_bytes(c: char)
    ensures
        (c as u32) < 0x80 ==> encode_scalar(c as u32) == seq![c as u32 as u8],
        (c as u32) >= 0x80 ==> forall|j: int|
            0 <= j < encode_scalar(c as u32).len() ==> #[trigger] encode_scalar(c as u32)[j] >= 0x80,
        encode_scalar(c as u32).len() >= 1,
{
    let v = c as u32;
    assert(v < 0x80 ==> (v & 0x7F) as u8 == v as u8) by (bit_vector);
    assert(forall|x: u8| #[trigger] (0xC0u8 | x) >= 0x80) by (bit_vector);
    assert(forall|x: u8| #[trigger] (0xE0u8 | x) >= 0x80) by (bit_vector);
    assert(forall|x: u8| #[trigger] (0xF0u8 | x) >= 0x80) by (bit_vector);
    assert(forall|x: u8| #[trigger] (0x80u8 | x) >= 0x80) by (bit_vector);
}

/// When the ASCII byte `b` does not occur in the encoding of `t`, no character
/// of `t` has the code `b`.
proof fn lemma_no_ascii_char(t: Seq<char>, b: u8)
    requires
        b < 0x80,
        forall|j: int| 0 <= j < encode_utf8(t).len() ==> #[trigger] encode_utf8(t)[j] != b,
    ensures
        forall|k: int| 0 <= k < t.len() ==> #[trigger] t[k] as u32 != b as u32,
    decreases t.len(),
{
    if t.len() > 0 {
        let e0 = encode_scalar(t[0] as u32);
        let rest = encode_utf8(t.drop_first());
        assert(encode_utf8(t) == e0 + rest);
        assert forall|j: int| 0 <= j < rest.len() implies #[trigger] rest[j] != b by {
            assert(rest[j] == encode_utf8(t)[j + e0.len()]);
        }
        lemma_no_ascii_char(t.drop_first(), b);
        lemma_encode_scalar_bytes(t[0]);
        assert(encode_utf8(t)[0] == e0[0]);
        assert forall|k: int| 0 <= k < t.len() implies #[trigger] t[k] as u32 != b as u32 by {
            if k > 0 {
                assert(t[k] == t.drop_first()[k - 1]);
            }
        }
    }
}

/// When the encoding of `t` starts with an ASCII byte, that byte is the code of
/// the first character, and the rest of the encoding encodes the others.
proof fn lemma_first_ascii(t: Seq<char>)
    requires
        encode_utf8(t).len() > 0,
        encode_utf8(t)[0] < 0x80,
    ensures
        t.len() > 0,
        t[0] as u32 == encode_utf8(t)[0] as u32,
        encode_utf8(t.drop_first()) == encode_utf8(t).subrange(1, encode_utf8(t).len() as int),
{
    lemma_encode_scalar_bytes(t[0]);
    let e0 = encode_scalar(t[0] as u32);
    assert(encode_utf8(t) == e0 + encode_utf8(t.drop_first()));
    assert(encode_utf8(t)[0] == e0[0]);
    assert(encode_utf8(t).subrange(1, encode_utf8(t).len() as int) =~= encode_utf8(t.drop_first()));
}

/// Two character sequences with the same encoding are the same.
proof fn lemma_encode_injective(a: Seq<char>, b: Seq<char>)
    requires
        encode_utf8(a) == encode_utf8(b),
    ensures
        a == b,
{
    encode_utf8_decode_utf8(a);
    encode_utf8_decode_utf8(b);
}

/// Escaping a single character.
proof fn lemma_escape_content_one(c: char)
    ensures
        escape_content(seq![c]) == escape_content_char(c),
{
    assert(seq![c].drop_last() =~= Seq::<char>::empty());
    assert(seq![c].last() == c);
    assert(escape_content(Seq::<char>::empty()) == Seq::<char>::empty());
    assert(Seq::<char>::empty() + escape_content_char(c) =~= escape_content_char(c));
}

/// Escapes special characters in `input` for safe inclusion in HTML content
/// and appends the result to `output`. Specifically, it replaces:
/// - `&` with `&amp;`
/// - `<` with `&lt;`
/// - `>` with `&gt;`
///
/// Runs of ordinary text between special characters are found with `memchr`
/// and copied whole.
pub fn escape_html_content(output: &mut String, input: &str)
    ensures
        final(output)@ == old(output)@ + escape_content(input@),
{
    let ghost start = output@;
    let mut haystack: &str = input;
    loop
        invariant_except_break
            start + escape_content(input@) == output@ + escape_content(haystack@),
        ensures
            start + escape_content(input@) == output@,
        decreases haystack@.len(),
    {
        let bytes = haystack.as_bytes();
        let ghost h = bytes@;
        // The bytes of `&`, `<` and `>`.
        match find_first_of3(0x26u8, 0x3Cu8, 0x3Eu8, bytes) {
            Some(index) => {
                proof {
                    encode_utf8_valid_utf8(haystack@);
                    is_char_boundary_iff_not_is_continuation_byte(h, index as int);
                }
                let (before, after) = haystack.split_at(index);
                proof {
                    assert(after.spec_bytes()[0] == h[index as int]);
                    lemma_first_ascii(after@);
                    encode_utf8_valid_utf8(after@);
                    reveal_with_fuel(is_char_boundary, 2);
                }
                let (_, rest) = after.split_at(1);
                let ghost piece = before@;
                let ghost c = after@[0];
                proof {
                    lemma_encode_injective(rest@, after@.drop_first());
                    lemma_encode_concat(piece, after@);
                    assert(h =~= before.spec_bytes() + after.spec_bytes());
                    lemma_encode_injective(haystack@, piece + after@);
                    assert(after@ =~= seq![c] + rest@);
                    assert(haystack@ =~= piece + seq![c] + rest@);
                    assert forall|j: int| 0 <= j < encode_utf8(piece).len() implies #[trigger] encode_utf8(
                        piece,
                    )[j] != 0x26u8 && encode_utf8(piece)[j] != 0x3Cu8 && encode_utf8(piece)[j]
                        != 0x3Eu8 by {
                        assert(encode_utf8(piece)[j] == h[j]);
                    }
                    lemma_no_ascii_char(piece, 0x26u8);
                    lemma_no_ascii_char(piece, 0x3Cu8);
                    lemma_no_ascii_char(piece, 0x3Eu8);
                    lemma_escape_plain_text(piece);
                    lemma_escape_content_concat(piece + seq![c], rest@);
                    lemma_escape_content_concat(piece, seq![c]);
                    lemma_escape_content_one(c);
                }
                output.push_str(before);
                let ghost mid = output@;
                let b = bytes[index];
                if b == 0x26u8 {
                    proof {
                        char_u32_cast(c, c as u32);
                        char_u32_cast('&', 0x26u32);
                    }
                    assert(c == '&');
                    output.push_str("&amp;");
                } else if b == 0x3Cu8 {
                    proof {
                        char_u32_cast(c, c as u32);
                        char_u32_cast('<', 0x3Cu32);
                    }
                    assert(c == '<');
                    output.push_str("&lt;");
                } else {
                    proof {
                        char_u32_cast(c, c as u32);
                        char_u32_cast('>', 0x3Eu32);
                    }
                    assert(c == '>');
                    output.push_str("&gt;");
                }
                assert(output@ == mid + escape_content_char(c));
                haystack = rest;
            },
            None => {
                proof {
                    lemma_no_ascii_char(haystack@, 0x26u8);
                    lemma_no_ascii_char(haystack@, 0x3Cu8);
                    lemma_no_ascii_char(haystack@, 0x3Eu8);
                    lemma_escape_plain_text(haystack@);
                }
                output.push_str(haystack);
                break ;
            },
        }
    }
}

/// Escapes special characters in `input` for safe inclusion in HTML attributes
/// which are enclosed in double quotes, and appends the result to `output`.
/// Specifically, it replaces:
/// - `&` with `&amp;`
/// - `"` with `&quot;`
pub fn escape_double_quoted_html_attribute(output: &mut String, input: &str)
    ensures
        final(output)@ == old(output)@ + escape_attribute(input@),
{
    broadcast use vstd::string::group_string_axioms;

    let ghost start = output@;
    for ch in it: input.chars()
        invariant
            it.seq() == input@,
            output@ == start + escape_attribute(input@.take(it.index() as int)),
    {
        let ghost i = it.index() as int;
        if ch == '&' {
            output.push_str("&amp;");
        } else if ch == '"' {
            output.push_str("&quot;");
        } else {
            output.push(ch);
        }
        assert(input@.take(i + 1).drop_last() == input@.take(i));
    }
    assert(input@.take(input@.len() as int) == input@);
}

} // verus!

verus! {

/// Escaped HTML content holds no `<` and no `>`, so it cannot open or close a tag.
pub proof fn lemma_escaped_content_has_no_angle_brackets(s: Seq<char>)
    ensures
        forall|i: int| 0 <= i < escape_content(s).len() ==> #[trigger] escape_content(s)[i] != '<'
            && escape_content(s)[i] != '>',
    decreases s.len(),
{
    reveal_strlit("&amp;");
    reveal_strlit("&lt;");
    reveal_strlit("&gt;");
    if s.len() > 0 {
        lemma_escaped_content_has_no_angle_brackets(s.drop_last());
        let prefix = escape_content(s.drop_last());
        let piece = escape_content_char(s.last());
        assert forall|i: int| 0 <= i < escape_content(s).len() implies #[trigger] escape_content(s)[i]
            != '<' && escape_content(s)[i] != '>' by {
            if i < prefix.len() {
                assert(escape_content(s)[i] == prefix[i]);
            } else {
                assert(escape_content(s)[i] == piece[i - prefix.len()]);
            }
        }
    }
}

/// An escaped attribute value holds no `"`, so it cannot end the attribute.
pub proof fn lemma_escaped_attribute_has_no_quote(s: Seq<char>)
    ensures
        forall|i: int| 0 <= i < escape_attribute(s).len() ==> #[trigger] escape_attribute(s)[i] != '"',
    decreases s.len(),
{
    reveal_strlit("&amp;");
    reveal_strlit("&quot;");
    if s.len() > 0 {
        lemma_escaped_attribute_has_no_quote(s.drop_last());
        let prefix = escape_attribute(s.drop_last());
        let piece = escape_attribute_char(s.last());
        assert forall|i: int| 0 <= i < escape_attribute(s).len() implies #[trigger] escape_attribute(s)[i]
            != '"' by {
            if i < prefix.len() {
                assert(escape_attribute(s)[i] == prefix[i]);
            } else {
                assert(escape_attribute(s)[i] == piece[i - prefix.len()]);
            }
        }
    }
}

/// Escaping text without special characters leaves it as it is.
pub proof fn lemma_escape_plain_text(s: Seq<char>)
    requires
        forall|i: int| 0 <= i < s.len() ==> #[trigger] s[i] != '&' && s[i] != '<' && s[i] != '>',
    ensures
        escape_content(s) == s,
    decreases s.len(),
{
    if s.len() > 0 {
        lemma_escape_plain_text(s.drop_last());
        assert(s.drop_last() + seq![s.last()] =~= s);
    }
}

/// Escaping distributes over concatenation.
pub proof fn lemma_escape_content_concat(a: Seq<char>, b: Seq<char>)
    ensures
        escape_content(a + b) == escape_content(a) + escape_content(b),
    decreases b.len(),
{
    if b.len() == 0 {
        assert(a + b =~= a);
    } else {
        lemma_escape_content_concat(a, b.drop_last());
        assert((a + b).drop_last() =~= a + b.drop_last());
        assert((a + b).last() == b.last());
        assert(escape_content(a) + escape_content(b.drop_last()) + escape_content_char(b.last())
            =~= escape_content(a) + (escape_content(b.drop_last()) + escape_content_char(b.last())));
    }
}

} // verus!
