//! Comparing strings.
use vstd::prelude::*;

verus! {

broadcast use vstd::string::group_string_axioms;

/// Whether `a` and `b` hold the same characters.
pub fn str_eq(a: &str, b: &str) -> (r: bool)
    ensures
        r == (a@ == b@),
{
    let x = a.as_bytes();
    let y = b.as_bytes();
    proof {
        vstd::utf8::encode_utf8_decode_utf8(a@);
        vstd::utf8::encode_utf8_decode_utf8(b@);
    }
    if x.len() != y.len() {
        return false;
    }
    let mut i: usize = 0;
    while i < x.len()
        invariant
            x@ == vstd::utf8::encode_utf8(a@),
            y@ == vstd::utf8::encode_utf8(b@),
            x@.len() == y@.len(),
            0 <= i <= x@.len(),
            forall|j: int| 0 <= j < i ==> x@[j] == y@[j],
        decreases x@.len() - i,
    {
        if x[i] != y[i] {
            assert(a@ == b@ ==> x@ == y@);
            return false;
        }
        i = i + 1;
    }
    assert(x@ =~= y@);
    true
}

} // verus!

verus! {

/// Whether `t` begins with `head`, followed by `first` and then `second`.
pub open spec fn begins_in_order(t: Seq<char>, head: Seq<char>, first: Seq<char>, second: Seq<char>) -> bool {
    let a = head.len();
    let m = a + first.len();
    let e = m + second.len();
    &&& e <= t.len()
    &&& t.subrange(0, a as int) == head
    &&& t.subrange(a as int, m as int) == first
    &&& t.subrange(m as int, e as int) == second
}

/// Whether `t` begins with `head`, followed by `first`, `second` and `third`.
pub open spec fn begins_in_order3(
    t: Seq<char>,
    head: Seq<char>,
    first: Seq<char>,
    second: Seq<char>,
    third: Seq<char>,
) -> bool {
    let e = head.len() + first.len() + second.len() + third.len();
    &&& begins_in_order(t, head, first, second)
    &&& e <= t.len()
    &&& t.subrange((e - third.len()) as int, e as int) == third
}

/// Text made of a head and two parts, then anything, begins with them in order.
pub proof fn lemma_begins_in_order(head: Seq<char>, first: Seq<char>, second: Seq<char>, rest: Seq<char>)
    ensures
        begins_in_order(head + first + second + rest, head, first, second),
{
    let t = head + first + second + rest;
    let a = head.len() as int;
    let m = a + first.len();
    let e = m + second.len();
    assert(t.subrange(0, a) =~= head);
    assert(t.subrange(a, m) =~= first);
    assert(t.subrange(m, e) =~= second);
}

/// Text made of a head and three parts, then anything, begins with them in order.
pub proof fn lemma_begins_in_order3(
    head: Seq<char>,
    first: Seq<char>,
    second: Seq<char>,
    third: Seq<char>,
    rest: Seq<char>,
)
    ensures
        begins_in_order3(head + first + second + third + rest, head, first, second, third),
{
    let t = head + first + second + third + rest;
    lemma_begins_in_order(head, first, second, third + rest);
    assert(t =~= head + first + second + (third + rest));
    let e = head.len() + first.len() + second.len() + third.len();
    assert(t.subrange((e - third.len()) as int, e as int) =~= third);
}

} // verus!
