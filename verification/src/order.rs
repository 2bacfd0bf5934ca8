//! The order in which the tokens of a report stand: by their labels, as
//! texts are ordered character by character.

use vstd::prelude::*;
use vstd::seq_lib::{to_multiset_build, to_multiset_insert};
use vstd::string::StrSliceExecFns;
use crate::token::{token_label, Token};

verus! {

/// Whether the text `a` stands before the text `b` or is `b`: at the first
/// place where they differ `a` has the smaller character, or `a` has
/// ended.
pub open spec fn text_le(a: Seq<char>, b: Seq<char>) -> bool
    decreases a.len(),
{
    if a.len() == 0 {
        true
    } else if b.len() == 0 {
        false
    } else if a[0] != b[0] {
        a[0] < b[0]
    } else {
        text_le(a.drop_first(), b.drop_first())
    }
}

/// Whether the label of `a` stands before the label of `b` or is it.
pub open spec fn label_le(a: Token, b: Token) -> bool {
    text_le(token_label(a), token_label(b))
}

/// Whether tokens stand in the order of their labels.
pub open spec fn in_label_order(tokens: Seq<Token>) -> bool {
    forall|i: int, j: int| 0 <= i < j < tokens.len() ==> label_le(tokens[i], tokens[j])
}

/// The place of `token` among `sorted`: that of the first token whose
/// label does not stand before the label of `token`, or the end.
pub open spec fn place(sorted: Seq<Token>, token: Token) -> int
    decreases sorted.len(),
{
    if sorted.len() == 0 || label_le(token, sorted[0]) {
        0
    } else {
        1 + place(sorted.drop_first(), token)
    }
}

/// The tokens in the order of their labels; tokens with one label keep
/// the later one first.
pub open spec fn sort_by_label(tokens: Seq<Token>) -> Seq<Token>
    decreases tokens.len(),
{
    if tokens.len() == 0 {
        Seq::empty()
    } else {
        let sorted = sort_by_label(tokens.drop_last());
        sorted.insert(place(sorted, tokens.last()), tokens.last())
    }
}

/// Of two texts one stands before the other or is it.
pub proof fn lemma_text_le_total(a: Seq<char>, b: Seq<char>)
    ensures
        text_le(a, b) || text_le(b, a),
    decreases a.len(),
{
    if a.len() > 0 && b.len() > 0 && a[0] == b[0] {
        lemma_text_le_total(a.drop_first(), b.drop_first());
    }
}

/// A text before a text before a third is before the third.
pub proof fn lemma_text_le_transitive(a: Seq<char>, b: Seq<char>, c: Seq<char>)
    requires
        text_le(a, b),
        text_le(b, c),
    ensures
        text_le(a, c),
    decreases a.len(),
{
    if a.len() > 0 && b.len() > 0 && c.len() > 0 && a[0] == b[0] && b[0] == c[0] {
        lemma_text_le_transitive(a.drop_first(), b.drop_first(), c.drop_first());
    }
}

/// The place of a token lies among the tokens; before it stand those whose
/// label is before its own, and at it one whose label is not.
pub proof fn lemma_place(sorted: Seq<Token>, token: Token)
    ensures
        0 <= place(sorted, token) <= sorted.len(),
        forall|j: int| 0 <= j < place(sorted, token) ==> !label_le(token, #[trigger] sorted[j]),
        place(sorted, token) < sorted.len() ==> label_le(token, sorted[place(sorted, token)]),
    decreases sorted.len(),
{
    if !(sorted.len() == 0 || label_le(token, sorted[0])) {
        let rest = sorted.drop_first();
        lemma_place(rest, token);
        assert forall|j: int| 0 <= j < place(sorted, token) implies !label_le(
            token,
            #[trigger] sorted[j],
        ) by {
            if j > 0 {
                assert(sorted[j] == rest[j - 1]);
            }
        }
    }
}

/// A token put at its place among tokens in label order leaves them in
/// label order.
pub proof fn lemma_insert_keeps_order(sorted: Seq<Token>, token: Token)
    requires
        in_label_order(sorted),
    ensures
        in_label_order(sorted.insert(place(sorted, token), token)),
{
    lemma_place(sorted, token);
    let k = place(sorted, token);
    let out = sorted.insert(k, token);
    assert forall|i: int, j: int| 0 <= i < j < out.len() implies label_le(out[i], out[j]) by {
        if j == k {
            assert(out[i] == sorted[i]);
            lemma_text_le_total(token_label(token), token_label(sorted[i]));
        } else if i == k {
            assert(out[j] == sorted[j - 1]);
            if j - 1 > k {
                lemma_text_le_transitive(
                    token_label(token),
                    token_label(sorted[k]),
                    token_label(sorted[j - 1]),
                );
            }
        } else {
            let a = if i < k {
                i
            } else {
                i - 1
            };
            let b = if j < k {
                j
            } else {
                j - 1
            };
            assert(out[i] == sorted[a] && out[j] == sorted[b]);
        }
    }
}

/// The tokens sorted by label stand in label order, and are the same
/// tokens, each as often as before.
pub proof fn sort_by_label_sorts(tokens: Seq<Token>)
    ensures
        in_label_order(sort_by_label(tokens)),
        sort_by_label(tokens).to_multiset() == tokens.to_multiset(),
        sort_by_label(tokens).len() == tokens.len(),
    decreases tokens.len(),
{
    if tokens.len() == 0 {
        assert(sort_by_label(tokens) =~= tokens);
    } else {
        let front = tokens.drop_last();
        let sorted = sort_by_label(front);
        sort_by_label_sorts(front);
        lemma_place(sorted, tokens.last());
        lemma_insert_keeps_order(sorted, tokens.last());
        to_multiset_insert(sorted, place(sorted, tokens.last()), tokens.last());
        to_multiset_build(front, tokens.last());
        assert(front.push(tokens.last()) =~= tokens);
    }
}

/// Whether the label of `a` stands before the label of `b` or is it.
pub fn label_before(a: Token, b: Token) -> (yes: bool)
    ensures
        yes == label_le(a, b),
{
    let x = a.label();
    let y = b.label();
    let n = x.unicode_len();
    let m = y.unicode_len();
    let mut i: usize = 0;
    assert(x@.subrange(0, n as int) =~= x@);
    assert(y@.subrange(0, m as int) =~= y@);
    while i < n && i < m
        invariant
            i <= n,
            i <= m,
            n == x@.len(),
            m == y@.len(),
            x@ == token_label(a),
            y@ == token_label(b),
            label_le(a, b) == text_le(
                x@.subrange(i as int, n as int),
                y@.subrange(i as int, m as int),
            ),
        decreases n - i,
    {
        let c = x.get_char(i);
        let d = y.get_char(i);
        proof {
            let rest_x = x@.subrange(i as int, n as int);
            let rest_y = y@.subrange(i as int, m as int);
            assert(rest_x[0] == c && rest_y[0] == d);
            assert(rest_x.drop_first() =~= x@.subrange(i + 1, n as int));
            assert(rest_y.drop_first() =~= y@.subrange(i + 1, m as int));
        }
        if c != d {
            return c < d;
        }
        i += 1;
    }
    i == n
}

/// The tokens in the order of their labels.
pub fn sorted_by_label(tokens: &Vec<Token>) -> (out: Vec<Token>)
    ensures
        out@ == sort_by_label(tokens@),
{
    let mut out: Vec<Token> = Vec::new();
    let mut i: usize = 0;
    assert(tokens@.take(0) =~= Seq::<Token>::empty());
    while i < tokens.len()
        invariant
            i <= tokens.len(),
            out@ == sort_by_label(tokens@.take(i as int)),
        decreases tokens.len() - i,
    {
        let token = tokens[i];
        let ghost sorted = out@;
        let mut k: usize = 0;
        assert(sorted.skip(0) =~= sorted);
        while k < out.len() && !label_before(token, out[k])
            invariant
                k <= out.len(),
                out@ == sorted,
                place(sorted, token) == k + place(sorted.skip(k as int), token),
            decreases out.len() - k,
        {
            assert(sorted.skip(k as int).drop_first() =~= sorted.skip(k + 1));
            k += 1;
        }
        out.insert(k, token);
        proof {
            let next = tokens@.take(i + 1);
            assert(next.drop_last() =~= tokens@.take(i as int));
            assert(next.last() == token);
        }
        i += 1;
    }
    assert(tokens@.take(tokens.len() as int) =~= tokens@);
    out
}

} // verus!
