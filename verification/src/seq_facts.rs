//! Facts about filtering sequences that the laws of the pipeline rest on.

use vstd::prelude::*;

verus! {

/// Filtering a sequence with one more item at its end.
pub proof fn lemma_filter_push<T>(items: Seq<T>, item: T, pred: spec_fn(T) -> bool)
    ensures
        items.push(item).filter(pred) == if pred(item) {
            items.filter(pred).push(item)
        } else {
            items.filter(pred)
        },
{
    reveal(Seq::filter);
    assert(items.push(item).drop_last() =~= items);
}

/// Filtering a sequence in which nothing passes leaves nothing.
pub proof fn lemma_filter_none<T>(items: Seq<T>, pred: spec_fn(T) -> bool)
    requires
        forall|i: int| 0 <= i < items.len() ==> !pred(#[trigger] items[i]),
    ensures
        items.filter(pred) == Seq::<T>::empty(),
    decreases items.len(),
{
    reveal(Seq::filter);
    if items.len() > 0 {
        let front = items.drop_last();
        lemma_filter_none(front, pred);
    }
}

/// Filtering a sequence of one item.
pub proof fn lemma_filter_one<T>(item: T, pred: spec_fn(T) -> bool)
    ensures
        seq![item].filter(pred) == if pred(item) {
            seq![item]
        } else {
            Seq::<T>::empty()
        },
{
    reveal_with_fuel(Seq::filter, 2);
}

/// Filtering a reversed sequence gives the reverse of the filtered sequence.
pub proof fn lemma_filter_reverse<T>(items: Seq<T>, pred: spec_fn(T) -> bool)
    ensures
        items.reverse().filter(pred) == items.filter(pred).reverse(),
    decreases items.len(),
{
    if items.len() == 0 {
        reveal(Seq::filter);
    } else {
        let front = items.drop_last();
        let last = items.last();
        lemma_filter_reverse(front, pred);
        assert(front.push(last) =~= items);
        lemma_filter_push(front, last, pred);
        lemma_filter_one(last, pred);
        assert(items.reverse() =~= seq![last] + front.reverse());
        Seq::filter_distributes_over_add(seq![last], front.reverse(), pred);
    }
}

/// An item put into a sequence adds itself to the filtered sequence if it
/// passes, and nothing otherwise.
pub proof fn lemma_filter_insert_len<T>(items: Seq<T>, at: int, item: T, pred: spec_fn(T) -> bool)
    requires
        0 <= at <= items.len(),
    ensures
        items.insert(at, item).filter(pred).len() == items.filter(pred).len() + if pred(item) {
            1int
        } else {
            0int
        },
{
    let head = items.take(at);
    let tail = items.skip(at);
    assert(items =~= head + tail);
    Seq::filter_distributes_over_add(head, tail, pred);
    Seq::filter_distributes_over_add(head.push(item), tail, pred);
    lemma_filter_push(head, item, pred);
}

/// Filtering twice is filtering once by both conditions.
pub proof fn lemma_filter_twice<T>(
    items: Seq<T>,
    first: spec_fn(T) -> bool,
    second: spec_fn(T) -> bool,
)
    ensures
        items.filter(first).filter(second) == items.filter(|item: T| first(item) && second(item)),
    decreases items.len(),
{
    let both = |item: T| first(item) && second(item);
    if items.len() == 0 {
        reveal(Seq::filter);
    } else {
        let front = items.drop_last();
        let last = items.last();
        assert(front.push(last) =~= items);
        lemma_filter_twice(front, first, second);
        lemma_filter_push(front, last, first);
        lemma_filter_push(front, last, both);
        if first(last) {
            lemma_filter_push(front.filter(first), last, second);
        }
    }
}

/// Filtering mapped items by a condition is filtering the items by the
/// condition on what they are mapped to.
pub proof fn lemma_filter_mapped<T, U>(items: Seq<T>, f: spec_fn(T) -> U, pred: spec_fn(U) -> bool)
    ensures
        items.map_values(f).filter(pred) == items.filter(|item: T| pred(f(item))).map_values(f),
    decreases items.len(),
{
    let lifted = |item: T| pred(f(item));
    if items.len() == 0 {
        reveal(Seq::filter);
    } else {
        let front = items.drop_last();
        let last = items.last();
        assert(front.push(last) =~= items);
        lemma_filter_mapped(front, f, pred);
        lemma_filter_push(front, last, lifted);
        assert(items.map_values(f) =~= front.map_values(f).push(f(last)));
        lemma_filter_push(front.map_values(f), f(last), pred);
    }
}

/// Where exactly one item of a sequence passes, the filtered sequence holds
/// that item alone.
pub proof fn lemma_filter_single<T>(items: Seq<T>, at: int, pred: spec_fn(T) -> bool)
    requires
        0 <= at < items.len(),
        pred(items[at]),
        forall|i: int| 0 <= i < items.len() && i != at ==> !pred(#[trigger] items[i]),
    ensures
        items.filter(pred) == seq![items[at]],
{
    let head = items.take(at);
    let tail = items.skip(at + 1);
    assert(items =~= head + seq![items[at]] + tail);
    Seq::filter_distributes_over_add(head + seq![items[at]], tail, pred);
    Seq::filter_distributes_over_add(head, seq![items[at]], pred);
    lemma_filter_none(head, pred);
    lemma_filter_none(tail, pred);
    lemma_filter_one(items[at], pred);
}

/// Two conditions that agree on every item of a sequence filter it alike.
pub proof fn lemma_filter_agree<T>(
    items: Seq<T>,
    first: spec_fn(T) -> bool,
    second: spec_fn(T) -> bool,
)
    requires
        forall|i: int| 0 <= i < items.len() ==> first(#[trigger] items[i]) == second(items[i]),
    ensures
        items.filter(first) == items.filter(second),
    decreases items.len(),
{
    if items.len() == 0 {
        reveal(Seq::filter);
    } else {
        let front = items.drop_last();
        let last = items.last();
        assert(front.push(last) =~= items);
        lemma_filter_agree(front, first, second);
        lemma_filter_push(front, last, first);
        lemma_filter_push(front, last, second);
    }
}

} // verus!
