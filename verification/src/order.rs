//! The order of texts, and sorting by it.

use vstd::prelude::*;
use vstd::relations::{sorted_by, total_ordering};
use crate::names::texts;
use crate::text::chars_of;

verus! {

/// Whether a text comes before another in the order of their characters, or is
/// the same.
pub open spec fn text_le(a: Seq<char>, b: Seq<char>) -> bool
    decreases a.len(),
{
    if a.len() == 0 {
        true
    } else if b.len() == 0 {
        false
    } else if a[0] != b[0] {
        a[0] < b[0]
    } else {
        text_le(a.drop_first(), b.drop_first())
    }
}

/// The order of texts.
pub open spec fn text_order() -> spec_fn(Seq<char>, Seq<char>) -> bool {
    |a: Seq<char>, b: Seq<char>| text_le(a, b)
}

proof fn lemma_text_le_reflexive(a: Seq<char>)
    ensures
        text_le(a, a),
    decreases a.len(),
{
    if a.len() > 0 {
        lemma_text_le_reflexive(a.drop_first());
    }
}

proof fn lemma_text_le_antisymmetric(a: Seq<char>, b: Seq<char>)
    requires
        text_le(a, b),
        text_le(b, a),
    ensures
        a == b,
    decreases a.len(),
{
    if a.len() > 0 && b.len() > 0 {
        lemma_text_le_antisymmetric(a.drop_first(), b.drop_first());
        assert(a =~= seq![a[0]] + a.drop_first());
        assert(b =~= seq![b[0]] + b.drop_first());
    } else {
        assert(a =~= b);
    }
}

proof fn lemma_text_le_transitive(a: Seq<char>, b: Seq<char>, c: Seq<char>)
    requires
        text_le(a, b),
        text_le(b, c),
    ensures
        text_le(a, c),
    decreases a.len(),
{
    if a.len() > 0 && b.len() > 0 && c.len() > 0 && a[0] == b[0] && b[0] == c[0] {
        lemma_text_le_transitive(a.drop_first(), b.drop_first(), c.drop_first());
    }
}

proof fn lemma_text_le_total(a: Seq<char>, b: Seq<char>)
    ensures
        text_le(a, b) || text_le(b, a),
    decreases a.len(),
{
    if a.len() > 0 && b.len() > 0 && a[0] == b[0] {
        lemma_text_le_total(a.drop_first(), b.drop_first());
    }
}

/// The order of texts is total: any two texts are in order one way round, and
/// both ways round only if they are the same.
pub proof fn law_text_order_is_total()
    ensures
        total_ordering(text_order()),
{
    let le = text_order();
    assert forall|a: Seq<char>| #[trigger] le(a, a) by {
        lemma_text_le_reflexive(a);
    }
    assert forall|a: Seq<char>, b: Seq<char>| #[trigger] le(a, b) && #[trigger] le(b, a) implies a
        == b by {
        lemma_text_le_antisymmetric(a, b);
    }
    assert forall|a: Seq<char>, b: Seq<char>, c: Seq<char>| #[trigger]
        le(a, b) && #[trigger] le(b, c) implies le(a, c) by {
        lemma_text_le_transitive(a, b, c);
    }
    assert forall|a: Seq<char>, b: Seq<char>| #[trigger] le(a, b) || #[trigger] le(b, a) by {
        lemma_text_le_total(a, b);
    }
}

/// Whether a text comes before another, or is the same.
pub fn text_at_most(a: &str, b: &str) -> (r: bool)
    ensures
        r == text_le(a@, b@),
{
    let x = chars_of(a);
    let y = chars_of(b);
    let mut i: usize = 0;
    assert(a@.skip(0) =~= a@);
    assert(b@.skip(0) =~= b@);
    while i < x.len() && i < y.len()
        invariant
            x@ == a@,
            y@ == b@,
            i <= x@.len(),
            i <= y@.len(),
            text_le(a@, b@) == text_le(a@.skip(i as int), b@.skip(i as int)),
        decreases x@.len() - i,
    {
        assert(a@.skip(i as int)[0] == x@[i as int]);
        assert(b@.skip(i as int)[0] == y@[i as int]);
        if x[i] != y[i] {
            return x[i] < y[i];
        }
        assert(a@.skip(i as int).drop_first() =~= a@.skip(i + 1));
        assert(b@.skip(i as int).drop_first() =~= b@.skip(i + 1));
        i = i + 1;
    }
    i == x.len()
}

/// Sorts texts. Every text stays as often as it was there.
pub fn sort(list: &Vec<String>) -> (r: Vec<String>)
    ensures
        sorted_by(texts(r@), text_order()),
        texts(r@).to_multiset() == texts(list@).to_multiset(),
{
    let mut out: Vec<String> = Vec::new();
    let mut i: usize = 0;
    assert(texts(out@) =~= texts(list@).take(0));
    while i < list.len()
        invariant
            i <= list@.len(),
            sorted_by(texts(out@), text_order()),
            texts(out@).to_multiset() == texts(list@).take(i as int).to_multiset(),
        decreases list@.len() - i,
    {
        let ghost before = out@;
        let ghost item = list@[i as int]@;
        let mut p: usize = 0;
        while p < out.len() && text_at_most(out[p].as_str(), list[i].as_str())
            invariant
                p <= out@.len(),
                i < list@.len(),
                forall|j: int| 0 <= j < p ==> text_le(#[trigger] texts(out@)[j], list@[i as int]@),
            decreases out@.len() - p,
        {
            p = p + 1;
        }
        out.insert(p, list[i].clone());
        proof {
            let old_texts = texts(before);
            let new_texts = texts(out@);
            assert(new_texts =~= old_texts.insert(p as int, item));
            vstd::seq_lib::to_multiset_insert(old_texts, p as int, item);
            let grown = texts(list@).take(i + 1);
            assert(grown =~= texts(list@).take(i as int).push(item));
            vstd::seq_lib::to_multiset_build(texts(list@).take(i as int), item);
            assert(old_texts.to_multiset().insert(item) =~= texts(list@).take(
                i as int,
            ).to_multiset().insert(item));
            law_text_order_is_total();
            let le = text_order();
            if p < old_texts.len() {
                lemma_text_le_total(old_texts[p as int], item);
            }
            assert forall|a: int, b: int| 0 <= a < b < new_texts.len() implies #[trigger] le(
                new_texts[a],
                new_texts[b],
            ) by {
                let oa = if a < p {
                    a
                } else {
                    a - 1
                };
                let ob = if b < p {
                    b
                } else {
                    b - 1
                };
                if a == p {
                    assert(new_texts[b] == old_texts[ob]);
                    if ob > p {
                        assert(le(old_texts[p as int], old_texts[ob]));
                        lemma_text_le_transitive(item, old_texts[p as int], old_texts[ob]);
                    }
                } else if b == p {
                    assert(new_texts[a] == old_texts[a]);
                    assert(text_le(old_texts[a], item));
                } else {
                    assert(new_texts[a] == old_texts[oa]);
                    assert(new_texts[b] == old_texts[ob]);
                    assert(le(old_texts[oa], old_texts[ob]));
                }
            }
        }
        i = i + 1;
    }
    assert(texts(list@).take(list@.len() as int) =~= texts(list@));
    out
}

/// Two lists with the same texts, however ordered, are the same once sorted.
pub proof fn law_sorting_forgets_order(a: Seq<Seq<char>>, b: Seq<Seq<char>>)
    requires
        sorted_by(a, text_order()),
        sorted_by(b, text_order()),
        a.to_multiset() == b.to_multiset(),
    ensures
        a == b,
{
    law_text_order_is_total();
    vstd::seq_lib::lemma_sorted_unique(a, b, text_order());
}

/// Texts are in the order of their characters: a text comes before what begins
/// with it, and of two texts that begin alike the one with the smaller character
/// there comes first.
pub proof fn law_texts_are_ordered_by_character(
    front: Seq<char>,
    c: char,
    d: char,
    a: Seq<char>,
    b: Seq<char>,
)
    ensures
        text_le(front, front + a),
        a.len() > 0 ==> !text_le(front + a, front),
        c < d ==> text_le(front + seq![c] + a, front + seq![d] + b) && !text_le(
            front + seq![d] + b,
            front + seq![c] + a,
        ),
    decreases front.len(),
{
    let x = front + seq![c] + a;
    let y = front + seq![d] + b;
    if front.len() > 0 {
        let rest = front.drop_first();
        law_texts_are_ordered_by_character(rest, c, d, a, b);
        assert((front + a).drop_first() =~= rest + a);
        assert(x.drop_first() =~= rest + seq![c] + a);
        assert(y.drop_first() =~= rest + seq![d] + b);
        assert((front + a)[0] == front[0] && x[0] == front[0] && y[0] == front[0]);
    } else {
        assert(x[0] == c && y[0] == d);
        assert(front + a =~= a);
    }
}

/// A sorted list holds the same texts, each before those that come after it in
/// order.
pub proof fn law_sorted_lists_are_in_order(list: Vec<String>, r: Vec<String>, i: int, j: int)
    requires
        call_ensures(sort, (&list,), r),
        0 <= i < j < r@.len(),
    ensures
        text_le(r@[i]@, r@[j]@),
        texts(r@).to_multiset() == texts(list@).to_multiset(),
{
    assert(texts(r@)[i] == r@[i]@ && texts(r@)[j] == r@[j]@);
    assert(text_order()(texts(r@)[i], texts(r@)[j]));
}

}
