//! Rewriting parsed nodes: giving identifiers a math variant, transforming the
//! letters of text, and merging runs of single letters into one identifier.
use vstd::prelude::*;

use super::ast::Node;
use super::attribute::{transformed_code_point, MathVariant, TextTransform};
use super::ops::Op;

verus! {

/// Whether `r` is `n` with the variant `var` set on its identifiers: on a
/// single- or multi-letter identifier, and inside rows, on each node.
pub open spec fn variant_set(n: Node, var: MathVariant, r: Node) -> bool
    decreases n,
{
    match n {
        Node::SingleLetterIdent(x, _) => r == Node::SingleLetterIdent(x, Some(var)),
        Node::MultiLetterIdent(x, _) => r matches Node::MultiLetterIdent(y, v) && y@ == x@ && v == Some(
            var,
        ),
        Node::Row(ns) => r matches Node::Row(rs) && variant_set_all(ns@, var, rs@),
        _ => r == n,
    }
}

/// `variant_set` on each node of `ns`, giving the nodes of `rs`.
pub open spec fn variant_set_all(ns: Seq<Node>, var: MathVariant, rs: Seq<Node>) -> bool
    decreases ns,
{
    if ns.len() == 0 {
        rs.len() == 0
    } else {
        rs.len() == ns.len() && variant_set_all(ns.drop_last(), var, rs.drop_last()) && variant_set(
            ns.last(),
            var,
            rs.last(),
        )
    }
}

/// Sets the math variant `var` on the identifiers of `node`, inside rows too.
pub fn set_variant(node: Node, var: MathVariant) -> (r: Node)
    ensures
        variant_set(node, var, r),
    decreases node,
{
    match node {
        Node::SingleLetterIdent(x, _) => Node::SingleLetterIdent(x, Some(var)),
        Node::MultiLetterIdent(x, _) => Node::MultiLetterIdent(x, Some(var)),
        Node::Row(vec) => {
            let ghost ns = vec@;
            let mut out: Vec<Node> = Vec::new();
            for child in it: vec.into_iter()
                invariant
                    it.seq() == ns,
                    node == Node::Row(vec),
                    ns == vec@,
                    out@.len() == it.index(),
                    variant_set_all(ns.take(it.index() as int), var, out@),
            {
                let ghost i = it.index() as int;
                let ghost before = out@;
                proof {
                    assert(child == ns[i]);
                    assert(decreases_to!(node => node->Row_0));
                    assert(decreases_to!(vec => vec@));
                    assert(decreases_to!(vec@ => vec@[i]));
                }
                let r = set_variant(child, var);
                out.push(r);
                assert(ns.take(i + 1).drop_last() == ns.take(i));
                assert(out@.drop_last() == before);
            }
            assert(ns.take(ns.len() as int) == ns);
            Node::Row(out)
        },
        node => node,
    }
}

/// Whether the characters of `t` are those of `s` transformed by `tf`.
pub open spec fn chars_transformed(s: Seq<char>, tf: TextTransform, t: Seq<char>) -> bool {
    t.len() == s.len() && forall|i: int|
        0 <= i < s.len() ==> #[trigger] t[i] as int == transformed_code_point(tf, s[i])
}

/// Whether `r` is `n` with its letters transformed by `tf`: an identifier keeps
/// its kind and loses its variant, an operator becomes a single-letter
/// identifier, and inside rows each node is transformed.
pub open spec fn text_transformed(n: Node, tf: TextTransform, r: Node) -> bool
    decreases n,
{
    match n {
        Node::SingleLetterIdent(x, _) => r matches Node::SingleLetterIdent(y, None) && y as int
            == transformed_code_point(tf, x),
        Node::MultiLetterIdent(x, _) => r matches Node::MultiLetterIdent(y, None) && chars_transformed(
            x@,
            tf,
            y@,
        ),
        Node::Operator(Op(op)) => r matches Node::SingleLetterIdent(y, None) && y as int
            == transformed_code_point(tf, op),
        Node::Row(ns) => r matches Node::Row(rs) && text_transformed_all(ns@, tf, rs@),
        _ => r == n,
    }
}

/// `text_transformed` on each node of `ns`, giving the nodes of `rs`.
pub open spec fn text_transformed_all(ns: Seq<Node>, tf: TextTransform, rs: Seq<Node>) -> bool
    decreases ns,
{
    if ns.len() == 0 {
        rs.len() == 0
    } else {
        rs.len() == ns.len() && text_transformed_all(ns.drop_last(), tf, rs.drop_last())
            && text_transformed(ns.last(), tf, rs.last())
    }
}

/// The characters of `s`, each transformed by `tf`.
fn transform_str(s: &str, tf: TextTransform) -> (r: String)
    ensures
        chars_transformed(s@, tf, r@),
{
    let mut r = String::new();
    for c in it: s.chars()
        invariant
            it.seq() == s@,
            chars_transformed(s@.take(it.index() as int), tf, r@),
    {
        let ghost i = it.index() as int;
        let t = tf.transform(c);
        r.push(t);
        assert(s@.take(i + 1)[i] == c);
    }
    assert(s@.take(s@.len() as int) == s@);
    r
}

/// Transforms the letters of `node` by `var`: identifiers and operators
/// become identifiers of the transformed letters, inside rows too.
pub fn transform_text(node: Node, var: TextTransform) -> (r: Node)
    ensures
        text_transformed(node, var, r),
    decreases node,
{
    match node {
        Node::SingleLetterIdent(x, _) => Node::SingleLetterIdent(var.transform(x), None),
        Node::MultiLetterIdent(letters, _) => Node::MultiLetterIdent(
            transform_str(letters.as_str(), var),
            None,
        ),
        Node::Operator(Op(op)) => Node::SingleLetterIdent(var.transform(op), None),
        Node::Row(vec) => {
            let ghost ns = vec@;
            let mut out: Vec<Node> = Vec::new();
            for child in it: vec.into_iter()
                invariant
                    it.seq() == ns,
                    node == Node::Row(vec),
                    ns == vec@,
                    out@.len() == it.index(),
                    text_transformed_all(ns.take(it.index() as int), var, out@),
            {
                let ghost i = it.index() as int;
                let ghost before = out@;
                proof {
                    assert(child == ns[i]);
                    assert(decreases_to!(node => node->Row_0));
                    assert(decreases_to!(vec => vec@));
                    assert(decreases_to!(vec@ => vec@[i]));
                }
                let r = transform_text(child, var);
                out.push(r);
                assert(ns.take(i + 1).drop_last() == ns.take(i));
                assert(out@.drop_last() == before);
            }
            assert(ns.take(ns.len() as int) == ns);
            Node::Row(out)
        },
        node => node,
    }
}

/// An item of a merged sequence of nodes: a run of single letters, which
/// becomes one identifier, or any other node, which stays.
pub enum MergedItem {
    Letters(Seq<char>),
    Other(Node),
}

/// The items that merging `ns` has closed, and the run of single letters still
/// open at its end.
pub open spec fn merge_state(ns: Seq<Node>) -> (Seq<MergedItem>, Option<Seq<char>>)
    decreases ns.len(),
{
    if ns.len() == 0 {
        (Seq::empty(), None)
    } else {
        let (items, open) = merge_state(ns.drop_last());
        match ns.last() {
            Node::SingleLetterIdent(c, _) => (
                items,
                Some(
                    match open {
                        Some(l) => l.push(c),
                        None => seq![c],
                    },
                ),
            ),
            node => (
                match open {
                    Some(l) => items.push(MergedItem::Letters(l)),
                    None => items,
                }.push(MergedItem::Other(node)),
                None,
            ),
        }
    }
}

/// The items of `ns` merged: each maximal run of single letters becomes one
/// item, and every other node is an item of its own.
pub open spec fn merged_items(ns: Seq<Node>) -> Seq<MergedItem> {
    let (items, open) = merge_state(ns);
    match open {
        Some(l) => items.push(MergedItem::Letters(l)),
        None => items,
    }
}

/// Whether the node `n` is what the item stands for: an identifier of the
/// letters, without variant, or the node itself.
pub open spec fn realizes(n: Node, item: MergedItem) -> bool {
    match item {
        MergedItem::Letters(l) => n matches Node::MultiLetterIdent(s, None) && s@ == l,
        MergedItem::Other(m) => n == m,
    }
}

/// Whether each node of `rs` is what the item at its place stands for.
pub open spec fn realizes_all(rs: Seq<Node>, items: Seq<MergedItem>) -> bool {
    rs.len() == items.len() && forall|i: int| 0 <= i < rs.len() ==> realizes(#[trigger] rs[i], items[i])
}

/// Merges each run of single letters of `nodes` into one identifier of those
/// letters. A single resulting node is returned as it is; several are returned
/// in a row.
pub fn merge_single_letters(nodes: Vec<Node>) -> (r: Node)
    ensures
        merged_items(nodes@).len() == 1 ==> realizes(r, merged_items(nodes@)[0]),
        merged_items(nodes@).len() != 1 ==> (r matches Node::Row(rs) && realizes_all(
            rs@,
            merged_items(nodes@),
        )),
{
    let ghost ns = nodes@;
    let mut new_nodes: Vec<Node> = Vec::new();
    let mut collected: Option<String> = None;
    for node in it: nodes.into_iter()
        invariant
            it.seq() == ns,
            realizes_all(new_nodes@, merge_state(ns.take(it.index() as int)).0),
            match merge_state(ns.take(it.index() as int)).1 {
                Some(l) => collected matches Some(c) && c@ == l,
                None => collected is None,
            },
    {
        let ghost i = it.index() as int;
        assert(ns.take(i + 1).drop_last() == ns.take(i));
        assert(ns.take(i + 1).last() == node);
        if let Node::SingleLetterIdent(c, _) = node {
            match collected {
                Some(ref mut letters) => {
                    letters.push(c);
                },
                None => {
                    let mut letters = String::new();
                    letters.push(c);
                    collected = Some(letters);
                },
            }
        } else {
            let ghost before = new_nodes@;
            let ghost items = merge_state(ns.take(i)).0;
            match collected.take() {
                Some(letters) => {
                    new_nodes.push(Node::MultiLetterIdent(letters, None));
                    assert(realizes_all(new_nodes@, merge_state(ns.take(i)).0.push(
                        MergedItem::Letters(merge_state(ns.take(i)).1->0),
                    )));
                },
                None => {},
            }
            let ghost mid = new_nodes@;
            new_nodes.push(node);
            assert(new_nodes@.drop_last() == mid);
        }
    }
    assert(ns.take(ns.len() as int) == ns);
    if let Some(letters) = collected {
        new_nodes.push(Node::MultiLetterIdent(letters, None));
    }
    if new_nodes.len() == 1 {
        new_nodes.pop().unwrap()
    } else {
        Node::Row(new_nodes)
    }
}

/// The letters of a sequence of single-letter identifiers.
pub open spec fn letters_of(ns: Seq<Node>) -> Seq<char>
    decreases ns.len(),
{
    if ns.len() == 0 {
        Seq::empty()
    } else {
        letters_of(ns.drop_last()).push(
            match ns.last() {
                Node::SingleLetterIdent(c, _) => c,
                _ => ' ',
            },
        )
    }
}

/// Merging single letters only gives one identifier of all of them.
pub proof fn lemma_merge_only_letters(ns: Seq<Node>)
    requires
        ns.len() > 0,
        forall|i: int| 0 <= i < ns.len() ==> #[trigger] ns[i] is SingleLetterIdent,
    ensures
        merge_state(ns) == (Seq::<MergedItem>::empty(), Some(letters_of(ns))),
        merged_items(ns) == seq![MergedItem::Letters(letters_of(ns))],
    decreases ns.len(),
{
    assert(ns.last() == ns[ns.len() - 1]);
    if ns.len() == 1 {
        assert(ns.drop_last() == Seq::<Node>::empty());
    } else {
        assert forall|i: int| 0 <= i < ns.drop_last().len() implies #[trigger] ns.drop_last()[i] is SingleLetterIdent by {
            assert(ns.drop_last()[i] == ns[i]);
        }
        lemma_merge_only_letters(ns.drop_last());
    }
}

/// Merging nodes none of which is a single letter keeps every node, in order.
pub proof fn lemma_merge_no_letters(ns: Seq<Node>)
    requires
        forall|i: int| 0 <= i < ns.len() ==> !(#[trigger] ns[i] is SingleLetterIdent),
    ensures
        merged_items(ns) == ns.map_values(|n: Node| MergedItem::Other(n)),
        merge_state(ns).1 is None,
    decreases ns.len(),
{
    if ns.len() > 0 {
        assert(ns.last() == ns[ns.len() - 1]);
        assert forall|i: int| 0 <= i < ns.drop_last().len() implies !(#[trigger] ns.drop_last()[i] is SingleLetterIdent) by {
            assert(ns.drop_last()[i] == ns[i]);
        }
        lemma_merge_no_letters(ns.drop_last());
        assert(ns.map_values(|n: Node| MergedItem::Other(n)) == ns.drop_last().map_values(
            |n: Node| MergedItem::Other(n),
        ).push(MergedItem::Other(ns.last())));
    } else {
        assert(ns.map_values(|n: Node| MergedItem::Other(n)) == Seq::<MergedItem>::empty());
    }
}

} // verus!
