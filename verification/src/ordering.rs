//! The order of the index: posts sorted by date, oldest first and stably,
//! then reversed as a whole, so that the most recent post comes first.

use crate::date::Timestamp;
use crate::post::{PostData, PostModel};
use crate::seq_facts::{lemma_filter_none, lemma_filter_reverse};
use vstd::prelude::*;

verus! {

/// A post together with the sort key of its date.
#[derive(Clone, Debug, PartialEq, Eq)]
pub struct DatedPost {
    pub key: Timestamp,
    pub post: PostData,
}

/// What a `DatedPost` holds.
#[verifier::ext_equal]
pub struct DatedModel {
    pub key: Timestamp,
    pub post: PostModel,
}

impl View for DatedPost {
    type V = DatedModel;

    open spec fn view(&self) -> DatedModel {
        DatedModel { key: self.key, post: self.post@ }
    }
}

impl DeepView for DatedPost {
    type V = DatedModel;

    open spec fn deep_view(&self) -> DatedModel {
        self@
    }
}

/// Where a post with the given key joins a sequence that is sorted oldest
/// first: behind the last post that is not later than it.
pub open spec fn insertion_point(sorted: Seq<DatedModel>, key: Timestamp) -> int
    decreases sorted.len(),
{
    if sorted.len() == 0 {
        0
    } else if sorted.last().key.not_after(key) {
        sorted.len() as int
    } else {
        insertion_point(sorted.drop_last(), key)
    }
}

/// The posts sorted by key, oldest first; posts with equal keys keep the
/// order in which they were given.
pub open spec fn oldest_first(dated: Seq<DatedModel>) -> Seq<DatedModel>
    decreases dated.len(),
{
    if dated.len() == 0 {
        dated
    } else {
        let sorted = oldest_first(dated.drop_last());
        sorted.insert(insertion_point(sorted, dated.last().key), dated.last())
    }
}

/// The posts sorted oldest first, the whole sequence then reversed.
pub open spec fn newest_first_dated(dated: Seq<DatedModel>) -> Seq<DatedModel> {
    oldest_first(dated).reverse()
}

/// The index order: the posts sorted oldest first, the whole sequence then
/// reversed, and the keys dropped.
pub open spec fn newest_first(dated: Seq<DatedModel>) -> Seq<PostModel> {
    newest_first_dated(dated).map_values(|item: DatedModel| item.post)
}

/// No post of the sequence is later than a post behind it.
pub open spec fn ascending(dated: Seq<DatedModel>) -> bool {
    forall|i: int, j: int| 0 <= i < j < dated.len() ==> dated[i].key.not_after(dated[j].key)
}

/// The insertion point lies within the sequence or at its end; every post
/// from it on is later than the key, and in a sorted sequence no post before
/// it is.
pub proof fn lemma_insertion_point(sorted: Seq<DatedModel>, key: Timestamp)
    ensures
        0 <= insertion_point(sorted, key) <= sorted.len(),
        forall|i: int|
            insertion_point(sorted, key) <= i < sorted.len() ==> key.before(
                (#[trigger] sorted[i]).key,
            ),
        ascending(sorted) ==> forall|i: int|
            0 <= i < insertion_point(sorted, key) ==> (#[trigger] sorted[i]).key.not_after(key),
    decreases sorted.len(),
{
    if sorted.len() > 0 && !sorted.last().key.not_after(key) {
        let front = sorted.drop_last();
        lemma_insertion_point(front, key);
        assert forall|i: int| insertion_point(sorted, key) <= i < sorted.len() implies key.before(
            (#[trigger] sorted[i]).key,
        ) by {
            if i < front.len() {
                assert(sorted[i] == front[i]);
            }
        }
        if ascending(sorted) {
            assert forall|i: int| 0 <= i < insertion_point(sorted, key) implies (
            #[trigger] sorted[i]).key.not_after(key) by {
                assert(sorted[i] == front[i]);
            }
        }
    } else if sorted.len() > 0 {
        if ascending(sorted) {
            assert forall|i: int| 0 <= i < insertion_point(sorted, key) implies (
            #[trigger] sorted[i]).key.not_after(key) by {
                if i < sorted.len() - 1 {
                    assert(sorted[i].key.not_after(sorted[sorted.len() - 1].key));
                }
            }
        }
    }
}

/// Sorting keeps every post, each as often as it was given.
pub proof fn lemma_oldest_first_permutes(dated: Seq<DatedModel>)
    ensures
        oldest_first(dated).len() == dated.len(),
        oldest_first(dated).to_multiset() == dated.to_multiset(),
    decreases dated.len(),
{
    broadcast use vstd::seq_lib::group_to_multiset_ensures;

    if dated.len() > 0 {
        let front = dated.drop_last();
        let sorted = oldest_first(front);
        lemma_oldest_first_permutes(front);
        lemma_insertion_point(sorted, dated.last().key);
        assert(front.push(dated.last()) =~= dated);
    }
}

/// The sorted sequence is in ascending order of keys.
pub proof fn lemma_oldest_first_ascending(dated: Seq<DatedModel>)
    ensures
        ascending(oldest_first(dated)),
    decreases dated.len(),
{
    if dated.len() > 0 {
        let front = dated.drop_last();
        let sorted = oldest_first(front);
        let last = dated.last();
        let at = insertion_point(sorted, last.key);
        lemma_oldest_first_ascending(front);
        lemma_insertion_point(sorted, last.key);
    }
}

/// Sorting is stable: the posts of one key stand in the sorted sequence in
/// the order in which they were given.
pub proof fn lemma_oldest_first_stable(dated: Seq<DatedModel>, key: Timestamp)
    ensures
        oldest_first(dated).filter(|item: DatedModel| item.key == key) == dated.filter(
            |item: DatedModel| item.key == key,
        ),
    decreases dated.len(),
{
    let same = |item: DatedModel| item.key == key;
    if dated.len() > 0 {
        let front = dated.drop_last();
        let last = dated.last();
        let sorted = oldest_first(front);
        let at = insertion_point(sorted, last.key);
        lemma_oldest_first_stable(front, key);
        lemma_insertion_point(sorted, last.key);
        let head = sorted.take(at);
        let tail = sorted.skip(at);
        assert(sorted =~= head + tail);
        Seq::filter_distributes_over_add(head, tail, same);
        Seq::filter_distributes_over_add(head.push(last), tail, same);
        assert(head.push(last).drop_last() =~= head);
        assert(dated.filter(same) == if same(last) {
            front.filter(same).push(last)
        } else {
            front.filter(same)
        }) by {
            reveal(Seq::filter);
        }
        assert(head.push(last).filter(same) == if same(last) {
            head.filter(same).push(last)
        } else {
            head.filter(same)
        }) by {
            reveal(Seq::filter);
        }
        if same(last) {
            lemma_filter_none(tail, same);
        }
    }
}

/// The index keeps every post, each as often as it was given.
pub proof fn lemma_newest_first_permutes(dated: Seq<DatedModel>)
    ensures
        newest_first_dated(dated).len() == dated.len(),
        newest_first_dated(dated).to_multiset() == dated.to_multiset(),
{
    lemma_oldest_first_permutes(dated);
    oldest_first(dated).lemma_reverse_to_multiset();
}

/// In the index no post is earlier than a post behind it.
pub proof fn lemma_newest_first_descending(dated: Seq<DatedModel>)
    ensures
        forall|i: int, j: int|
            0 <= i < j < newest_first_dated(dated).len() ==> newest_first_dated(
                dated,
            )[j].key.not_after(newest_first_dated(dated)[i].key),
{
    lemma_oldest_first_ascending(dated);
}

/// Of two posts of the index with different keys, the one that stands first
/// is the later one, and the later one stands first.
pub proof fn lemma_later_post_stands_first(dated: Seq<DatedModel>, i: int, j: int)
    requires
        0 <= i < newest_first_dated(dated).len(),
        0 <= j < newest_first_dated(dated).len(),
        newest_first_dated(dated)[i].key != newest_first_dated(dated)[j].key,
    ensures
        i < j <==> newest_first_dated(dated)[j].key.before(newest_first_dated(dated)[i].key),
{
    lemma_newest_first_descending(dated);
    let index = newest_first_dated(dated);
    if i < j {
        assert(index[j].key.not_after(index[i].key));
    } else if j < i {
        assert(index[i].key.not_after(index[j].key));
    }
}

/// Posts of one key stand in the index in the reverse of the order in which
/// they were given: the sort keeps their order, and the reversal of the whole
/// sequence turns it round.
pub proof fn lemma_equal_keys_in_reverse_order(dated: Seq<DatedModel>, key: Timestamp)
    ensures
        newest_first_dated(dated).filter(|item: DatedModel| item.key == key) == dated.filter(
            |item: DatedModel| item.key == key,
        ).reverse(),
{
    let same = |item: DatedModel| item.key == key;
    lemma_oldest_first_stable(dated, key);
    lemma_filter_reverse(oldest_first(dated), same);
}

/// The position at which a post with the given key joins the sorted posts.
fn insertion_index(sorted: &Vec<DatedPost>, key: &Timestamp) -> (at: usize)
    ensures
        at == insertion_point(sorted.deep_view(), *key),
{
    let mut at = sorted.len();
    assert(sorted.deep_view().take(at as int) =~= sorted.deep_view());
    while at > 0
        invariant
            at <= sorted.len(),
            insertion_point(sorted.deep_view(), *key) == insertion_point(
                sorted.deep_view().take(at as int),
                *key,
            ),
        decreases at,
    {
        let ghost prefix = sorted.deep_view().take(at as int);
        assert(prefix.drop_last() =~= sorted.deep_view().take(at - 1));
        if !key.is_before(&sorted[at - 1].key) {
            return at;
        }
        at -= 1;
    }
    at
}

/// Puts dated posts into the order of the index: sorted by key oldest first,
/// posts of equal keys in the order given, and the whole sequence then
/// reversed.
pub fn order_posts(dated: Vec<DatedPost>) -> (index: Vec<PostData>)
    ensures
        index.deep_view() == newest_first(dated.deep_view()),
{
    let ghost given = dated.deep_view();
    let mut sorted: Vec<DatedPost> = Vec::new();
    for item in it: dated.into_iter()
        invariant
            it.seq().len() == given.len(),
            forall|k: int| 0 <= k < given.len() ==> (#[trigger] it.seq()[k])@ == given[k],
            sorted.deep_view() == oldest_first(given.take(it.index() as int)),
    {
        let ghost before = sorted.deep_view();
        let ghost seen = given.take(it.index() as int);
        let at = insertion_index(&sorted, &item.key);
        proof {
            lemma_insertion_point(before, item.key);
            assert(given.take(it.index() + 1).drop_last() =~= seen);
        }
        sorted.insert(at, item);
    }
    assert(given.take(given.len() as int) =~= given);
    let ghost ordered = sorted.deep_view();
    let mut index: Vec<PostData> = Vec::new();
    while sorted.len() > 0
        invariant
            ordered == oldest_first(given),
            sorted.len() <= ordered.len(),
            sorted.deep_view() == ordered.take(sorted.len() as int),
            index.deep_view() == newest_first(given).take(ordered.len() - sorted.len()),
        decreases sorted.len(),
    {
        let ghost rest = sorted.deep_view();
        let ghost done = index.deep_view();
        let item = sorted.pop().unwrap();
        assert(item@ == ordered[sorted.len() as int]) by {
            assert(rest[rest.len() - 1] == ordered[rest.len() - 1]);
        }
        index.push(item.post);
        assert(index.deep_view() =~= done.push(item@.post));
    }
    index
}

} // verus!
