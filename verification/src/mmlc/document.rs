//! Finding the formulas of a document, written between `$$..$$` (block) and
//! `$..$` (inline), and replacing each by what a converter makes of it.
use vstd::prelude::*;

use super::ast::{math_text, render_math, Node};
use super::display::Display;
use crate::specifications::collect_chars;

verus! {

broadcast use vstd::string::group_string_axioms;

/// Why a document could not be converted.
#[derive(Debug, Clone, PartialEq, Eq)]
pub enum ReplaceError<E> {
    /// The `$$` or the `$` delimiters do not come in pairs.
    InvalidNumberOfDollarSigns,
    /// The converter refused a formula.
    Conversion(E),
}

/// The width of a delimiter: 2 for `$$`, 1 for `$`.
pub open spec fn width(double: bool) -> int {
    if double {
        2
    } else {
        1
    }
}

/// Whether a delimiter (`$$` if `double`, else `$`) starts at `i` in `s`.
pub open spec fn delim_at(s: Seq<char>, double: bool, i: int) -> bool {
    &&& 0 <= i
    &&& i + width(double) <= s.len()
    &&& s[i] == '$'
    &&& double ==> s[i + 1] == '$'
}

/// The positions below `n`, in increasing order, at which a delimiter starts.
/// Two `$$` may overlap, as in `$$$`.
pub open spec fn delims_before(s: Seq<char>, double: bool, n: int) -> Seq<int>
    decreases n,
{
    if n <= 0 {
        Seq::empty()
    } else if delim_at(s, double, n - 1) {
        delims_before(s, double, n - 1).push(n - 1)
    } else {
        delims_before(s, double, n - 1)
    }
}

/// The positions, in increasing order, at which a delimiter starts in `s`.
pub open spec fn delims(s: Seq<char>, double: bool) -> Seq<int> {
    delims_before(s, double, s.len() as int)
}

/// The number of formulas: one per pair of delimiters.
pub open spec fn formula_count(s: Seq<char>, double: bool) -> int {
    (delims(s, double).len() / 2) as int
}

/// Whether no delimiter overlaps another (no `$$$` for `$$`).
pub open spec fn separated(s: Seq<char>, double: bool) -> bool {
    forall|j: int, l: int|
        0 <= j < l < delims(s, double).len() ==> #[trigger] delims(s, double)[j] + width(double)
            <= #[trigger] delims(s, double)[l]
}

/// The text of formula `k`: what stands between delimiters `2k` and `2k + 1`.
pub open spec fn formula(s: Seq<char>, double: bool, k: int) -> Seq<char> {
    s.subrange(delims(s, double)[2 * k] + width(double), delims(s, double)[2 * k + 1])
}

/// The text before formula `k` and after formula `k - 1`; for `k` equal to the
/// number of formulas, the text after the last one.
pub open spec fn gap(s: Seq<char>, double: bool, k: int) -> Seq<char> {
    let d = delims(s, double);
    let start = if k == 0 {
        0
    } else {
        d[2 * k - 1] + width(double)
    };
    let end = if 2 * k < d.len() {
        d[2 * k]
    } else {
        s.len() as int
    };
    s.subrange(start, end)
}

/// The output up to the end of converted formula `k - 1`, where `ms[j]` is what
/// formula `j` became.
pub open spec fn spliced(s: Seq<char>, double: bool, ms: Seq<Seq<char>>, k: int) -> Seq<char>
    decreases k,
{
    if k <= 0 {
        Seq::empty()
    } else {
        spliced(s, double, ms, k - 1) + gap(s, double, k - 1) + ms[k - 1]
    }
}

/// `s` with each formula, delimiters included, replaced by what it became.
pub open spec fn replaced(s: Seq<char>, double: bool, ms: Seq<Seq<char>>) -> Seq<char> {
    spliced(s, double, ms, formula_count(s, double)) + gap(s, double, formula_count(s, double))
}

/// The delimiters found among the first `n` positions stand in increasing order
/// where a delimiter starts.
pub proof fn lemma_delims_ordered(s: Seq<char>, double: bool, n: int)
    ensures
        forall|j: int|
            0 <= j < delims_before(s, double, n).len() ==> delim_at(
                s,
                double,
                #[trigger] delims_before(s, double, n)[j],
            ) && delims_before(s, double, n)[j] < n,
        forall|j: int, l: int|
            0 <= j < l < delims_before(s, double, n).len() ==> #[trigger] delims_before(s, double, n)[j]
                < #[trigger] delims_before(s, double, n)[l],
    decreases n,
{
    if n > 0 {
        lemma_delims_ordered(s, double, n - 1);
        let prev = delims_before(s, double, n - 1);
        let cur = delims_before(s, double, n);
        assert forall|j: int| 0 <= j < cur.len() implies delim_at(s, double, #[trigger] cur[j]) && cur[j]
            < n by {
            if j < prev.len() {
                assert(cur[j] == prev[j]);
            }
        }
        assert forall|j: int, l: int| 0 <= j < l < cur.len() implies #[trigger] cur[j] < #[trigger] cur[l] by {
            assert(cur[j] == prev[j]);
            if l < prev.len() {
                assert(cur[l] == prev[l]);
            }
        }
    }
}

/// Single `$` delimiters never overlap.
pub proof fn lemma_single_separated(s: Seq<char>)
    ensures
        separated(s, false),
{
    lemma_delims_ordered(s, false, s.len() as int);
}

/// The positions at which a delimiter starts in `chars`, in increasing order.
fn find_delims(chars: &Vec<char>, double: bool) -> (r: Vec<usize>)
    ensures
        r@.len() == delims(chars@, double).len(),
        forall|j: int| 0 <= j < r@.len() ==> r@[j] as int == delims(chars@, double)[j],
{
    let mut r: Vec<usize> = Vec::new();
    let mut i: usize = 0;
    while i < chars.len()
        invariant
            i <= chars@.len(),
            r@.len() == delims_before(chars@, double, i as int).len(),
            forall|j: int| 0 <= j < r@.len() ==> r@[j] as int == delims_before(chars@, double, i as int)[j],
        decreases chars@.len() - i,
    {
        let here = if double {
            i + 1 < chars.len() && chars[i] == '$' && chars[i + 1] == '$'
        } else {
            chars[i] == '$'
        };
        assert(here == delim_at(chars@, double, i as int));
        if here {
            r.push(i);
        }
        i = i + 1;
    }
    r
}

/// Whether `convert` may turn formula text `t` into `m` in display mode `display`.
pub open spec fn converts_to<E, F: Fn(&str, Display) -> Result<String, E>>(
    convert: F,
    t: Seq<char>,
    display: Display,
    m: Seq<char>,
) -> bool {
    exists|a: &str, out: String|
        a@ == t && out@ == m && #[trigger] call_ensures(convert, (a, display), Ok(out))
}

/// Whether `ms[k]` is, for each formula `k` of `s`, what `convert` may make of it.
pub open spec fn conversions<E, F: Fn(&str, Display) -> Result<String, E>>(
    convert: F,
    s: Seq<char>,
    double: bool,
    display: Display,
    ms: Seq<Seq<char>>,
) -> bool {
    &&& ms.len() == formula_count(s, double)
    &&& forall|k: int|
        0 <= k < ms.len() ==> converts_to(convert, formula(s, double, k), display, #[trigger] ms[k])
}

/// Whether `out` is `s` with each formula replaced by what `convert` may make
/// of it.
pub open spec fn replaces_to<E, F: Fn(&str, Display) -> Result<String, E>>(
    convert: F,
    s: Seq<char>,
    double: bool,
    display: Display,
    out: Seq<char>,
) -> bool {
    exists|ms: Seq<Seq<char>>|
        #[trigger] conversions(convert, s, double, display, ms) && out == replaced(s, double, ms)
}

/// Whether `convert` may refuse some formula of `s` with `e`.
pub open spec fn may_fail_with<E, F: Fn(&str, Display) -> Result<String, E>>(
    convert: F,
    s: Seq<char>,
    double: bool,
    display: Display,
    e: E,
) -> bool {
    exists|k: int, a: &str|
        #![trigger formula(s, double, k), call_ensures(convert, (a, display), Err(e))]
        0 <= k < formula_count(s, double) && a@ == formula(s, double, k) && call_ensures(
            convert,
            (a, display),
            Err(e),
        )
}

/// Whether `convert` accepts every formula of `s`.
pub open spec fn accepts_all<E, F: Fn(&str, Display) -> Result<String, E>>(
    convert: F,
    s: Seq<char>,
    double: bool,
    display: Display,
) -> bool {
    forall|k: int, a: &str, r: Result<String, E>|
        #![trigger formula(s, double, k), call_ensures(convert, (a, display), r)]
        0 <= k < formula_count(s, double) && a@ == formula(s, double, k) && call_ensures(
            convert,
            (a, display),
            r,
        ) ==> r is Ok
}

/// `spliced` up to `k` reads only the first `k` converted formulas.
proof fn lemma_spliced_prefix(s: Seq<char>, double: bool, ms: Seq<Seq<char>>, ms2: Seq<Seq<char>>, k: int)
    requires
        forall|j: int| 0 <= j < k ==> ms[j] == ms2[j],
    ensures
        spliced(s, double, ms, k) == spliced(s, double, ms2, k),
    decreases k,
{
    if k > 0 {
        lemma_spliced_prefix(s, double, ms, ms2, k - 1);
    }
}

/// Appends `chars[from..to]` to `out`.
fn push_chars(out: &mut String, chars: &Vec<char>, from: usize, to: usize)
    requires
        from <= to <= chars@.len(),
    ensures
        final(out)@ == old(out)@ + chars@.subrange(from as int, to as int),
{
    let ghost start = out@;
    let mut i: usize = from;
    while i < to
        invariant
            from <= i <= to <= chars@.len(),
            out@ == start + chars@.subrange(from as int, i as int),
        decreases to - i,
    {
        out.push(chars[i]);
        assert(chars@.subrange(from as int, i + 1) == chars@.subrange(from as int, i as int).push(
            chars@[i as int],
        ));
        i = i + 1;
    }
}

/// Replaces each formula of `input` between a pair of delimiters (`$$` if
/// `double`, else `$`) by what `convert` makes of its text in display mode
/// `display`. The text outside the formulas is kept as it is.
///
/// Fails with `InvalidNumberOfDollarSigns` when the delimiters do not come in
/// pairs, and with the converter's error on the first formula it refuses.
pub fn replace_delimited<E, F: Fn(&str, Display) -> Result<String, E>>(
    input: &str,
    double: bool,
    display: Display,
    convert: &F,
) -> (r: Result<String, ReplaceError<E>>)
    requires
        delims(input@, double).len() % 2 == 0 ==> separated(input@, double),
        forall|a: &str| #[trigger] call_requires(*convert, (a, display)),
    ensures
        (delims(input@, double).len() % 2 == 1) <==> r matches Err(
            ReplaceError::InvalidNumberOfDollarSigns,
        ),
        r matches Ok(out) ==> replaces_to(*convert, input@, double, display, out@),
        r matches Err(ReplaceError::Conversion(e)) ==> may_fail_with(
            *convert,
            input@,
            double,
            display,
            e,
        ),
        delims(input@, double).len() % 2 == 0 && accepts_all(*convert, input@, double, display)
            ==> r is Ok,
{
    let chars = collect_chars(input);
    let idx = find_delims(&chars, double);
    let ghost s = input@;
    let ghost d = delims(s, double);
    proof {
        lemma_delims_ordered(s, double, s.len() as int);
    }
    if idx.len() % 2 != 0 {
        return Err(ReplaceError::InvalidNumberOfDollarSigns);
    }
    let w: usize = if double {
        2
    } else {
        1
    };
    let pairs: usize = idx.len() / 2;
    let mut output = String::new();
    let first_end: usize = if idx.len() > 0 {
        idx[0]
    } else {
        chars.len()
    };
    push_chars(&mut output, &chars, 0, first_end);
    assert(chars@.len() == chars.len() && idx@.len() == idx.len());
    let ghost mut ms: Seq<Seq<char>> = Seq::empty();
    let mut k: usize = 0;
    assert(output@ == spliced(s, double, ms, 0) + gap(s, double, 0));
    while k < pairs
        invariant
            chars@ == s,
            chars@.len() <= usize::MAX,
            idx@.len() <= usize::MAX,
            s == input@,
            d == delims(s, double),
            idx@.len() == d.len(),
            forall|j: int| 0 <= j < idx@.len() ==> idx@[j] as int == d[j],
            forall|j: int| 0 <= j < d.len() ==> delim_at(s, double, #[trigger] d[j]),
            d.len() % 2 == 0,
            separated(s, double),
            w as int == width(double),
            pairs == d.len() / 2,
            k <= pairs,
            ms.len() == k,
            forall|j: int|
                0 <= j < k ==> converts_to(*convert, formula(s, double, j), display, #[trigger] ms[j]),
            output@ == spliced(s, double, ms, k as int) + gap(s, double, k as int),
            forall|a: &str| #[trigger] call_requires(*convert, (a, display)),
        decreases pairs - k,
    {
        assert(delim_at(s, double, d[2 * k]));
        let start = idx[2 * k] + w;
        let end = idx[2 * k + 1];
        assert(d[2 * k] + width(double) <= d[2 * k + 1]);
        let mut text = String::new();
        push_chars(&mut text, &chars, start, end);
        let t: &str = text.as_str();
        let res = convert(t, display);
        match res {
            Ok(m) => {
                proof {
                    assert(t@ == formula(s, double, k as int));
                    assert(converts_to(*convert, formula(s, double, k as int), display, m@));
                }
                output.push_str(m.as_str());
                assert(delim_at(s, double, d[2 * k + 1]));
                let gap_start = idx[2 * k + 1] + w;
                let gap_end: usize = if 2 * k + 2 < idx.len() {
                    idx[2 * k + 2]
                } else {
                    chars.len()
                };
                if 2 * k + 2 < idx.len() {
                    assert(d[2 * k + 1] + width(double) <= d[2 * k + 2]);
                }
                push_chars(&mut output, &chars, gap_start, gap_end);
                proof {
                    let old_ms = ms;
                    ms = ms.push(m@);
                    lemma_spliced_prefix(s, double, old_ms, ms, k as int);
                    assert(gap(s, double, k + 1) == chars@.subrange(gap_start as int, gap_end as int));
                }
            },
            Err(e) => {
                proof {
                    assert(t@ == formula(s, double, k as int));
                }
                return Err(ReplaceError::Conversion(e));
            },
        }
        k = k + 1;
    }
    assert(conversions(*convert, s, double, display, ms));
    Ok(output)
}

/// Finds the formulas of a document and replaces each by what `convert` makes
/// of it: first the block formulas, written `$$..$$`, then, in the result, the
/// inline formulas, written `$..$`. The text around them is kept as it is.
///
/// A `$` that does not delimit a formula may not appear, neither outside the
/// formulas nor inside them: the delimiters must come in pairs, else the result
/// is `InvalidNumberOfDollarSigns`. The first formula that `convert` refuses
/// ends the conversion with its error.
pub fn replace<E, F: Fn(&str, Display) -> Result<String, E>>(input: &str, convert: F) -> (r: Result<
    String,
    ReplaceError<E>,
>)
    requires
        delims(input@, true).len() % 2 == 0 ==> separated(input@, true),
        forall|a: &str, d: Display| #[trigger] call_requires(convert, (a, d)),
    ensures
        r matches Ok(out) ==> exists|mid: Seq<char>|
            #[trigger] replaces_to(convert, input@, true, Display::Block, mid) && delims(
                mid,
                false,
            ).len() % 2 == 0 && replaces_to(convert, mid, false, Display::Inline, out@),
        ({
            &&& delims(input@, true).len() % 2 == 0
            &&& forall|mid: Seq<char>|
                #[trigger] replaces_to(convert, input@, true, Display::Block, mid) ==> delims(
                    mid,
                    false,
                ).len() % 2 == 1
        }) ==> r is Err,
        ({
            &&& delims(input@, true).len() % 2 == 0
            &&& accepts_all(convert, input@, true, Display::Block)
            &&& forall|mid: Seq<char>|
                #[trigger] replaces_to(convert, input@, true, Display::Block, mid) ==> delims(
                    mid,
                    false,
                ).len() % 2 == 1
        }) ==> r matches Err(ReplaceError::InvalidNumberOfDollarSigns),
        delims(input@, true).len() % 2 == 1 ==> r matches Err(
            ReplaceError::InvalidNumberOfDollarSigns,
        ),
        r matches Err(ReplaceError::InvalidNumberOfDollarSigns) ==> delims(input@, true).len() % 2
            == 1 || exists|mid: Seq<char>|
            #[trigger] replaces_to(convert, input@, true, Display::Block, mid) && delims(
                mid,
                false,
            ).len() % 2 == 1,
        r matches Err(ReplaceError::Conversion(e)) ==> may_fail_with(
            convert,
            input@,
            true,
            Display::Block,
            e,
        ) || exists|mid: Seq<char>|
            #[trigger] replaces_to(convert, input@, true, Display::Block, mid) && may_fail_with(
                convert,
                mid,
                false,
                Display::Inline,
                e,
            ),
        ({
            &&& delims(input@, true).len() % 2 == 0
            &&& accepts_all(convert, input@, true, Display::Block)
            &&& forall|mid: Seq<char>|
                #[trigger] replaces_to(convert, input@, true, Display::Block, mid) ==> delims(
                    mid,
                    false,
                ).len() % 2 == 0 && accepts_all(convert, mid, false, Display::Inline)
        }) ==> r is Ok,
{
    let block = replace_delimited(input, true, Display::Block, &convert);
    match block {
        Ok(mid) => {
            proof {
                lemma_single_separated(mid@);
            }
            let inline = replace_delimited(mid.as_str(), false, Display::Inline, &convert);
            assert(replaces_to(convert, input@, true, Display::Block, mid@));
            inline
        },
        Err(e) => Err(e),
    }
}

/// Below `n`, a text without `$` has no delimiter.
proof fn lemma_no_delims_before(s: Seq<char>, double: bool, n: int)
    requires
        forall|i: int| 0 <= i < s.len() ==> s[i] != '$',
    ensures
        delims_before(s, double, n).len() == 0,
    decreases n,
{
    if n > 0 {
        lemma_no_delims_before(s, double, n - 1);
    }
}

/// A text without `$` holds no formula, and replacing leaves it as it is.
pub proof fn lemma_text_without_dollars_unchanged(s: Seq<char>, double: bool, ms: Seq<Seq<char>>)
    requires
        forall|i: int| 0 <= i < s.len() ==> s[i] != '$',
    ensures
        delims(s, double).len() == 0,
        replaced(s, double, ms) == s,
{
    lemma_no_delims_before(s, double, s.len() as int);
    assert(s.subrange(0, s.len() as int) == s);
}

/// Converts the LaTeX formula `latex` into a MathML `math` element shown as
/// `display`: `parse` reads the formula into nodes, which are then written out
/// one after the other. The parser's error is returned as it is.
pub fn latex_to_mathml<E, P: Fn(&str) -> Result<Vec<Node>, E>>(latex: &str, display: Display, parse: P) -> (r:
    Result<String, E>)
    requires
        call_requires(parse, (latex,)),
    ensures
        r matches Ok(out) ==> exists|nodes: Vec<Node>|
            #[trigger] call_ensures(parse, (latex,), Ok(nodes)) && out@ == math_text(nodes@, display),
        r matches Err(e) ==> call_ensures(parse, (latex,), Err(e)),
        (forall|res: Result<Vec<Node>, E>| #[trigger] call_ensures(parse, (latex,), res) ==> res is Ok)
            ==> r is Ok,
{
    match parse(latex) {
        Ok(nodes) => {
            let out = render_math(&nodes, display);
            Ok(out)
        },
        Err(e) => Err(e),
    }
}

/// Delimiters that do not overlap their successors do not overlap any later one.
proof fn lemma_separated_from_successors(s: Seq<char>, double: bool)
    requires
        forall|j: int|
            0 <= j < delims(s, double).len() - 1 ==> #[trigger] delims(s, double)[j] + width(double)
                <= delims(s, double)[j + 1],
    ensures
        separated(s, double),
{
    let d = delims(s, double);
    lemma_delims_ordered(s, double, s.len() as int);
    assert forall|j: int, l: int| 0 <= j < l < d.len() implies #[trigger] d[j] + width(double)
        <= #[trigger] d[l] by {
        assert(d[j] + width(double) <= d[j + 1]);
        if j + 1 < l {
            assert(d[j + 1] < d[l]);
        }
    }
}

/// Whether the `$$` delimiters of `input` come in pairs and two of them overlap,
/// as in `$$$`: `replace` does not take such a text.
pub fn overlapping_block_delimiters(input: &str) -> (r: bool)
    ensures
        r == (delims(input@, true).len() % 2 == 0 && !separated(input@, true)),
{
    let chars = collect_chars(input);
    let idx = find_delims(&chars, true);
    let ghost d = delims(input@, true);
    if idx.len() % 2 != 0 {
        return false;
    }
    let mut j: usize = 0;
    while j < idx.len() && j + 1 < idx.len()
        invariant
            idx@.len() == d.len(),
            j <= idx@.len(),
            forall|k: int| 0 <= k < idx@.len() ==> idx@[k] as int == d[k],
            forall|k: int| 0 <= k < j ==> #[trigger] d[k] + width(true) <= d[k + 1],
            chars@ == input@,
            d == delims(input@, true),
            d.len() % 2 == 0,
        decreases idx@.len() - j,
    {
        if idx[j + 1] < 2 || idx[j] > idx[j + 1] - 2 {
            assert(!separated(input@, true)) by {
                assert(!(d[j as int] + width(true) <= d[j + 1]));
            }
            return true;
        }
        j = j + 1;
    }
    proof {
        lemma_separated_from_successors(input@, true);
    }
    false
}

/// Without delimiters there is nothing to replace: the text is kept whole,
/// whatever the converter would make of formulas.
pub proof fn lemma_no_delimiters_unchanged(s: Seq<char>, double: bool, ms: Seq<Seq<char>>)
    requires
        delims(s, double).len() == 0,
    ensures
        formula_count(s, double) == 0,
        replaced(s, double, ms) == s,
{
    assert(s.subrange(0, s.len() as int) == s);
}

/// A document without a `$$` pair goes through the block pass unchanged, so an
/// odd number of `$` in it is refused with `InvalidNumberOfDollarSigns`.
pub proof fn lemma_odd_single_dollars_refused<E, F: Fn(&str, Display) -> Result<String, E>>(
    convert: F,
    s: Seq<char>,
)
    requires
        delims(s, true).len() == 0,
        delims(s, false).len() % 2 == 1,
    ensures
        accepts_all(convert, s, true, Display::Block),
        forall|mid: Seq<char>|
            #[trigger] replaces_to(convert, s, true, Display::Block, mid) ==> mid == s && delims(
                mid,
                false,
            ).len() % 2 == 1,
{
    assert forall|mid: Seq<char>| #[trigger]
        replaces_to(convert, s, true, Display::Block, mid) implies mid == s && delims(mid, false).len()
        % 2 == 1 by {
        let ms = choose|ms: Seq<Seq<char>>|
            #[trigger] conversions(convert, s, true, Display::Block, ms) && mid == replaced(s, true, ms);
        lemma_no_delimiters_unchanged(s, true, ms);
    }
}

} // verus!
