//! The order of texts.

use crate::text::chars_of;
use vstd::prelude::*;

verus! {

/// Whether a text comes before another one: by the first character in which they differ, or
/// because it is a proper beginning of the other one. This is the order of their UTF-8 bytes.
pub open spec fn text_before(a: Seq<char>, b: Seq<char>) -> bool
    decreases b.len(),
{
    if b.len() == 0 {
        false
    } else if a.len() == 0 {
        true
    } else if a[0] != b[0] {
        a[0] < b[0]
    } else {
        text_before(a.subrange(1, a.len() as int), b.subrange(1, b.len() as int))
    }
}

/// The order is irreflexive.
pub proof fn text_order_irreflexive(a: Seq<char>)
    ensures
        !text_before(a, a),
    decreases a.len(),
{
    if a.len() > 0 {
        text_order_irreflexive(a.subrange(1, a.len() as int));
    }
}

/// The order is transitive.
pub proof fn text_order_transitive(a: Seq<char>, b: Seq<char>, c: Seq<char>)
    requires
        text_before(a, b),
        text_before(b, c),
    ensures
        text_before(a, c),
    decreases c.len(),
{
    if a.len() > 0 && a[0] == b[0] && b[0] == c[0] {
        text_order_transitive(
            a.subrange(1, a.len() as int),
            b.subrange(1, b.len() as int),
            c.subrange(1, c.len() as int),
        );
    }
}

/// Of two different texts one comes before the other.
pub proof fn text_order_total(a: Seq<char>, b: Seq<char>)
    ensures
        a == b || text_before(a, b) || text_before(b, a),
    decreases a.len(),
{
    if a.len() > 0 && b.len() > 0 && a[0] == b[0] {
        let a1 = a.subrange(1, a.len() as int);
        let b1 = b.subrange(1, b.len() as int);
        text_order_total(a1, b1);
        if a1 == b1 {
            assert(a =~= seq![a[0]] + a1);
            assert(b =~= seq![b[0]] + b1);
        }
    } else if a.len() == 0 && b.len() == 0 {
        assert(a =~= b);
    }
}

/// Whether a text comes before another one.
pub fn comes_before(a: &str, b: &str) -> (r: bool)
    ensures
        r == text_before(a@, b@),
{
    let x = chars_of(a);
    let y = chars_of(b);
    let mut i: usize = 0;
    assert(x@.subrange(0, x@.len() as int) =~= x@);
    assert(y@.subrange(0, y@.len() as int) =~= y@);
    while i < x.len() && i < y.len() && x[i] == y[i]
        invariant
            x@ == a@,
            y@ == b@,
            i <= x@.len(),
            i <= y@.len(),
            text_before(a@, b@) == text_before(
                x@.subrange(i as int, x@.len() as int),
                y@.subrange(i as int, y@.len() as int),
            ),
        decreases x@.len() - i,
    {
        proof {
            let x1 = x@.subrange(i as int, x@.len() as int);
            let y1 = y@.subrange(i as int, y@.len() as int);
            assert(x1.subrange(1, x1.len() as int) =~= x@.subrange(i + 1, x@.len() as int));
            assert(y1.subrange(1, y1.len() as int) =~= y@.subrange(i + 1, y@.len() as int));
        }
        i += 1;
    }
    if i >= y.len() {
        false
    } else if i >= x.len() {
        true
    } else {
        x[i] < y[i]
    }
}

/// A sorted list with one more text, behind those that do not come after it.
pub open spec fn inserted(list: Seq<Seq<char>>, text: Seq<char>) -> Seq<Seq<char>>
    decreases list.len(),
{
    if list.len() == 0 {
        seq![text]
    } else if text_before(text, list.last()) {
        inserted(list.drop_last(), text).push(list.last())
    } else {
        list.push(text)
    }
}

/// The texts of a list in their order.
pub open spec fn sorted(list: Seq<Seq<char>>) -> Seq<Seq<char>>
    decreases list.len(),
{
    if list.len() == 0 {
        Seq::empty()
    } else {
        inserted(sorted(list.drop_last()), list.last())
    }
}

/// Whether no text of a list comes before an earlier one.
pub open spec fn in_order(list: Seq<Seq<char>>) -> bool {
    forall|i: int, j: int|
        0 <= i < j < list.len() ==> !text_before(#[trigger] list[j], #[trigger] list[i])
}

proof fn lemma_inserted(list: Seq<Seq<char>>, text: Seq<char>)
    requires
        in_order(list),
    ensures
        in_order(inserted(list, text)),
        inserted(list, text).len() == list.len() + 1,
        inserted(list, text).to_multiset() == list.to_multiset().insert(text),
        forall|k: int|
            0 <= k <= list.len() ==> (#[trigger] inserted(list, text)[k]) == text || list.contains(
                inserted(list, text)[k],
            ),
    decreases list.len(),
{
    broadcast use vstd::seq_lib::group_to_multiset_ensures;

    let r = inserted(list, text);
    if list.len() == 0 {
        assert(seq![text] =~= list.push(text));
    } else if text_before(text, list.last()) {
        let front = list.drop_last();
        lemma_inserted(front, text);
        let inner = inserted(front, text);
        assert(r == inner.push(list.last()));
        assert(list =~= front.push(list.last()));
        assert(inner.to_multiset().insert(list.last()) =~= list.to_multiset().insert(text));
        assert forall|k: int| 0 <= k <= list.len() implies (#[trigger] r[k]) == text
            || list.contains(r[k]) by {
            if k < inner.len() {
                assert(r[k] == inner[k]);
                if inner[k] != text {
                    let j = choose|j: int| 0 <= j < front.len() && front[j] == inner[k];
                    assert(list[j] == r[k]);
                }
            } else {
                assert(list[list.len() - 1] == r[k]);
            }
        }
        assert forall|i: int, j: int| 0 <= i < j < r.len() implies !text_before(
            #[trigger] r[j],
            #[trigger] r[i],
        ) by {
            if j == r.len() - 1 {
                assert(r[i] == inner[i]);
                if inner[i] == text {
                    if text_before(list.last(), text) {
                        text_order_transitive(text, list.last(), text);
                        text_order_irreflexive(text);
                    }
                } else {
                    let k = choose|k: int| 0 <= k < front.len() && front[k] == inner[i];
                    assert(list[k] == r[i] && list[list.len() - 1] == r[j]);
                }
            } else {
                assert(r[i] == inner[i] && r[j] == inner[j]);
            }
        }
    } else {
        assert(r == list.push(text));
        assert forall|i: int, j: int| 0 <= i < j < r.len() implies !text_before(
            #[trigger] r[j],
            #[trigger] r[i],
        ) by {
            if j == r.len() - 1 {
                assert(r[i] == list[i]);
                let last = list[list.len() - 1];
                if text_before(text, list[i]) && i < list.len() - 1 {
                    assert(!text_before(last, list[i]));
                    text_order_total(last, list[i]);
                    if list[i] != last {
                        text_order_transitive(text, list[i], last);
                    }
                }
            } else {
                assert(r[i] == list[i] && r[j] == list[j]);
            }
        }
        assert forall|k: int| 0 <= k <= list.len() implies (#[trigger] r[k]) == text
            || list.contains(r[k]) by {
            if k < list.len() {
                assert(r[k] == list[k]);
            }
        }
    }
}

/// Sorting brings the texts in order, and loses and adds none.
pub proof fn sorting_orders(list: Seq<Seq<char>>)
    ensures
        in_order(sorted(list)),
        sorted(list).to_multiset() == list.to_multiset(),
        sorted(list).len() == list.len(),
    decreases list.len(),
{
    broadcast use vstd::seq_lib::group_to_multiset_ensures;

    if list.len() > 0 {
        sorting_orders(list.drop_last());
        lemma_inserted(sorted(list.drop_last()), list.last());
        assert(list =~= list.drop_last().push(list.last()));
    } else {
        assert(sorted(list) =~= list);
    }
}

/// Adds a text to a sorted list.
fn insert_text(list: &mut Vec<String>, text: String)
    ensures
        final(list).deep_view() == inserted(old(list).deep_view(), text@),
{
    let ghost was = list.deep_view();
    let ghost mut behind: Seq<Seq<char>> = Seq::empty();
    let mut at: usize = list.len();
    assert(was.take(at as int) =~= was);
    assert(inserted(was, text@) + behind =~= inserted(was, text@));
    while at > 0 && comes_before(text.as_str(), list[at - 1].as_str())
        invariant
            at <= list@.len(),
            was == list.deep_view(),
            behind == was.subrange(at as int, was.len() as int),
            inserted(was, text@) == inserted(was.take(at as int), text@) + behind,
        ensures
            at <= list@.len(),
            was == list.deep_view(),
            behind == was.subrange(at as int, was.len() as int),
            inserted(was, text@) == inserted(was.take(at as int), text@) + behind,
            at > 0 ==> !text_before(text@, was[at - 1]),
        decreases at,
    {
        proof {
            let front = was.take(at as int);
            assert(front.last() == list@[at - 1]@);
            assert(front.drop_last() =~= was.take(at - 1));
            let more = seq![front.last()] + behind;
            assert(more =~= was.subrange(at - 1, was.len() as int));
            assert(inserted(front.drop_last(), text@).push(front.last()) + behind =~= inserted(
                front.drop_last(),
                text@,
            ) + more);
            behind = more;
        }
        at -= 1;
    }
    proof {
        let front = was.take(at as int);
        if at > 0 {
            assert(front.last() == was[at - 1]);
        }
        assert(inserted(front, text@) =~= front.push(text@));
    }
    let ghost added = text@;
    list.insert(at, text);
    assert(list.deep_view() =~= was.insert(at as int, added));
    assert(was.insert(at as int, added) =~= was.take(at as int).push(added) + behind);
}

/// The texts of a list in their order.
pub fn sort_texts(list: &Vec<String>) -> (r: Vec<String>)
    ensures
        r.deep_view() == sorted(list.deep_view()),
{
    let ghost all = list.deep_view();
    let mut r: Vec<String> = Vec::new();
    let mut i: usize = 0;
    assert(r.deep_view() =~= Seq::empty());
    assert(all.take(0) =~= Seq::empty());
    while i < list.len()
        invariant
            i <= list@.len(),
            all == list.deep_view(),
            r.deep_view() == sorted(all.take(i as int)),
        decreases list@.len() - i,
    {
        assert(all.take(i + 1).drop_last() =~= all.take(i as int));
        assert(all.take(i + 1).last() == list@[i as int]@);
        insert_text(&mut r, list[i].clone());
        i += 1;
    }
    assert(all.take(i as int) =~= all);
    r
}

} // verus!
