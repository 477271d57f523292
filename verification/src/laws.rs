//! What holds of every run: which posts reach the index and the pages, how
//! often, in which order, and when a run fails.

use crate::collect::{
    assembled_all, dated_all, lemma_assembly_failure_persists, lemma_dating_failure_persists,
    published, sorted_posts, SourceModel,
};
use crate::date::Timestamp;
use crate::error::ErrorModel;
use crate::ordering::{
    insertion_point, lemma_equal_keys_in_reverse_order, lemma_insertion_point,
    lemma_later_post_stands_first, lemma_newest_first_descending, lemma_newest_first_permutes,
    newest_first, newest_first_dated, oldest_first, DatedModel,
};
use crate::post::PostModel;
use crate::render::{index_job, page_jobs, page_of, PageModel};
use crate::seq_facts::{
    lemma_filter_agree, lemma_filter_insert_len, lemma_filter_mapped, lemma_filter_none,
    lemma_filter_push, lemma_filter_reverse, lemma_filter_single, lemma_filter_twice,
};
use vstd::prelude::*;

verus! {

/// The index of a successful run.
pub open spec fn index_of(sources: Seq<SourceModel>) -> Seq<PostModel> {
    sorted_posts(sources)->Ok_0
}

/// The visible posts of a run whose sources can all be assembled, in the
/// order of their sources.
pub open spec fn visible_posts(sources: Seq<SourceModel>) -> Seq<PostModel> {
    published(assembled_all(sources)->Ok_0)
}

/// The index of a successful run, each post with the key of its date.
pub open spec fn dated_index(sources: Seq<SourceModel>) -> Seq<DatedModel> {
    newest_first_dated(dated_all(visible_posts(sources))->Ok_0)
}

/// The condition of carrying the given identifier.
pub open spec fn has_identifier(identifier: Seq<char>) -> spec_fn(PostModel) -> bool {
    |post: PostModel| post.identifier == identifier
}

/// The condition of being the page of the given name.
pub open spec fn is_named(output: Seq<char>) -> spec_fn(PageModel) -> bool {
    |page: PageModel| page.output == output
}

/// The condition of being dated on the day of the given key.
pub open spec fn is_dated(key: Timestamp) -> spec_fn(PostModel) -> bool {
    |post: PostModel| post.date_key() == Some(key)
}

/// The post of a dated post.
pub open spec fn post_of() -> spec_fn(DatedModel) -> PostModel {
    |item: DatedModel| item.post
}

/// How often a post with the given identifier stands among the posts.
pub open spec fn occurrences(posts: Seq<PostModel>, identifier: Seq<char>) -> nat {
    posts.filter(has_identifier(identifier)).len()
}

/// How many of the page jobs write the page of the given name.
pub open spec fn pages_named(jobs: Seq<PageModel>, output: Seq<char>) -> nat {
    jobs.filter(is_named(output)).len()
}

/// No two sources share an identifier: each comes from a metadata file of
/// its own.
pub open spec fn distinct_identifiers(sources: Seq<SourceModel>) -> bool {
    forall|i: int, j: int|
        0 <= i < j < sources.len() ==> sources[i].identifier != sources[j].identifier
}

/// Where the assembly succeeds, it gives one post for each source, in order.
pub proof fn lemma_assembled_each(sources: Seq<SourceModel>)
    requires
        assembled_all(sources) is Ok,
    ensures
        assembled_all(sources)->Ok_0.len() == sources.len(),
        forall|k: int|
            0 <= k < sources.len() ==> (#[trigger] sources[k]).assembled() == Ok::<
                PostModel,
                ErrorModel,
            >(assembled_all(sources)->Ok_0[k]),
    decreases sources.len(),
{
    if sources.len() > 0 {
        let front = sources.drop_last();
        let posts = assembled_all(sources)->Ok_0;
        lemma_assembled_each(front);
        assert forall|k: int| 0 <= k < sources.len() implies (#[trigger] sources[k]).assembled()
            == Ok::<PostModel, ErrorModel>(posts[k]) by {
            if k < front.len() {
                assert(sources[k] == front[k]);
            }
        }
    }
}

/// Where the dating succeeds, it gives each post, in order, with the key of
/// its date.
pub proof fn lemma_dated_each(posts: Seq<PostModel>)
    requires
        dated_all(posts) is Ok,
    ensures
        dated_all(posts)->Ok_0.len() == posts.len(),
        dated_all(posts)->Ok_0.map_values(post_of()) == posts,
        forall|k: int|
            0 <= k < posts.len() ==> (#[trigger] dated_all(posts)->Ok_0[k]).post.date_key()
                == Some(dated_all(posts)->Ok_0[k].key),
    decreases posts.len(),
{
    let dated = dated_all(posts)->Ok_0;
    if posts.len() > 0 {
        let front = posts.drop_last();
        let before = dated_all(front)->Ok_0;
        lemma_dated_each(front);
        assert forall|k: int| 0 <= k < posts.len() implies dated.map_values(post_of())[k]
            == posts[k] by {
            if k < front.len() {
                assert(before.map_values(post_of())[k] == front[k]);
            }
        }
    }
}

/// Sorting changes no count: as many posts of the sorted sequence meet a
/// condition as of the given one.
pub proof fn lemma_sorting_keeps_counts(dated: Seq<DatedModel>, pred: spec_fn(DatedModel) -> bool)
    ensures
        oldest_first(dated).filter(pred).len() == dated.filter(pred).len(),
    decreases dated.len(),
{
    if dated.len() > 0 {
        let front = dated.drop_last();
        let last = dated.last();
        let sorted = oldest_first(front);
        lemma_sorting_keeps_counts(front, pred);
        lemma_insertion_point(sorted, last.key);
        lemma_filter_insert_len(sorted, insertion_point(sorted, last.key), last, pred);
        assert(front.push(last) =~= dated);
        lemma_filter_push(front, last, pred);
    }
}

/// A post stands in the index as often as among the dated posts.
pub proof fn lemma_index_keeps_counts(dated: Seq<DatedModel>, identifier: Seq<char>)
    ensures
        occurrences(newest_first(dated), identifier) == occurrences(
            dated.map_values(post_of()),
            identifier,
        ),
{
    let carries = has_identifier(identifier);
    let lifted = |item: DatedModel| carries(post_of()(item));
    lemma_filter_mapped(newest_first_dated(dated), post_of(), carries);
    lemma_filter_reverse(oldest_first(dated), lifted);
    lemma_sorting_keeps_counts(dated, lifted);
    lemma_filter_mapped(dated, post_of(), carries);
}

/// In a successful run with distinct identifiers, the post of a source stands
/// in the index once if it is visible and not at all if it is hidden.
pub proof fn lemma_occurrences_in_index(sources: Seq<SourceModel>, i: int)
    requires
        distinct_identifiers(sources),
        0 <= i < sources.len(),
        sorted_posts(sources) is Ok,
    ensures
        sources[i].metadata is Some,
        sources[i].metadata->Some_0.should_publish() ==> occurrences(
            index_of(sources),
            sources[i].identifier,
        ) == 1,
        !sources[i].metadata->Some_0.should_publish() ==> occurrences(
            index_of(sources),
            sources[i].identifier,
        ) == 0,
{
    let posts = assembled_all(sources)->Ok_0;
    let visible = visible_posts(sources);
    let dated = dated_all(visible)->Ok_0;
    let identifier = sources[i].identifier;
    let carries = has_identifier(identifier);
    let shown = |post: PostModel| post.should_publish();
    let both = |post: PostModel| shown(post) && carries(post);
    lemma_assembled_each(sources);
    lemma_dated_each(visible);
    lemma_index_keeps_counts(dated, identifier);
    lemma_filter_twice(posts, shown, carries);
    assert forall|k: int| 0 <= k < posts.len() && k != i implies !both(#[trigger] posts[k]) by {
        assert(posts[k].identifier == sources[k].identifier);
    }
    if both(posts[i]) {
        lemma_filter_single(posts, i, both);
    } else {
        lemma_filter_none(posts, both);
    }
}

/// As many page jobs write the page of a name as posts carry it as their
/// identifier.
pub proof fn lemma_one_page_per_post(posts: Seq<PostModel>, identifier: Seq<char>)
    ensures
        pages_named(page_jobs(posts), identifier) == occurrences(posts, identifier),
{
    let page = |post: PostModel| page_of(post);
    let lifted = |post: PostModel| is_named(identifier)(page(post));
    lemma_filter_mapped(posts, page, is_named(identifier));
    assert(lifted =~= has_identifier(identifier));
}

/// In a successful run whose sources have distinct identifiers, every post
/// whose `publish` is absent or `true` stands exactly once in the index and
/// has exactly one page.
pub proof fn lemma_visible_post_rendered_once(sources: Seq<SourceModel>, i: int)
    requires
        distinct_identifiers(sources),
        0 <= i < sources.len(),
        sorted_posts(sources) is Ok,
        sources[i].metadata is Some,
        sources[i].metadata->Some_0.should_publish(),
    ensures
        occurrences(index_of(sources), sources[i].identifier) == 1,
        pages_named(page_jobs(index_of(sources)), sources[i].identifier) == 1,
{
    lemma_occurrences_in_index(sources, i);
    lemma_one_page_per_post(index_of(sources), sources[i].identifier);
}

/// In a successful run whose sources have distinct identifiers, a post whose
/// `publish` is `false` stands nowhere in the index and has no page.
pub proof fn lemma_hidden_post_not_rendered(sources: Seq<SourceModel>, i: int)
    requires
        distinct_identifiers(sources),
        0 <= i < sources.len(),
        sorted_posts(sources) is Ok,
        sources[i].metadata is Some,
        sources[i].metadata->Some_0.publish == Some(false),
    ensures
        occurrences(index_of(sources), sources[i].identifier) == 0,
        pages_named(page_jobs(index_of(sources)), sources[i].identifier) == 0,
{
    lemma_occurrences_in_index(sources, i);
    lemma_one_page_per_post(index_of(sources), sources[i].identifier);
}

/// Every item of the index order is one of the dated posts given.
pub proof fn lemma_index_items_given(dated: Seq<DatedModel>, k: int)
    requires
        0 <= k < newest_first_dated(dated).len(),
    ensures
        dated.contains(newest_first_dated(dated)[k]),
{
    broadcast use vstd::seq_lib::group_to_multiset_ensures;

    let index = newest_first_dated(dated);
    lemma_newest_first_permutes(dated);
    assert(index.to_multiset().count(index[k]) > 0);
}

/// In a successful run every post of the index has a date that normalizes,
/// and it stands in the index order under the key of that date.
pub proof fn lemma_index_keys(sources: Seq<SourceModel>, k: int)
    requires
        sorted_posts(sources) is Ok,
        0 <= k < index_of(sources).len(),
    ensures
        k < dated_index(sources).len(),
        dated_index(sources)[k].post == index_of(sources)[k],
        index_of(sources)[k].date_key() == Some(dated_index(sources)[k].key),
{
    let visible = visible_posts(sources);
    lemma_dated_each(visible);
    lemma_index_items_given(dated_all(visible)->Ok_0, k);
}

/// The index is sorted by date, most recent first: no post of the index is
/// earlier than a post behind it.
pub proof fn lemma_index_descending(sources: Seq<SourceModel>, a: int, b: int)
    requires
        sorted_posts(sources) is Ok,
        0 <= a < b < index_of(sources).len(),
    ensures
        index_of(sources)[a].date_key() is Some,
        index_of(sources)[b].date_key() is Some,
        index_of(sources)[b].date_key()->Some_0.not_after(
            index_of(sources)[a].date_key()->Some_0,
        ),
{
    lemma_index_keys(sources, a);
    lemma_index_keys(sources, b);
    lemma_newest_first_descending(dated_all(visible_posts(sources))->Ok_0);
}

/// Of two posts of the index with different dates, the one that stands first
/// is the later one, and the later one stands first: the index runs from the
/// most recent post to the oldest.
pub proof fn lemma_index_ordered_by_date(sources: Seq<SourceModel>, a: int, b: int)
    requires
        sorted_posts(sources) is Ok,
        0 <= a < index_of(sources).len(),
        0 <= b < index_of(sources).len(),
        index_of(sources)[a].date_key() != index_of(sources)[b].date_key(),
    ensures
        index_of(sources)[a].date_key() is Some,
        index_of(sources)[b].date_key() is Some,
        a < b <==> index_of(sources)[b].date_key()->Some_0.before(
            index_of(sources)[a].date_key()->Some_0,
        ),
{
    lemma_index_keys(sources, a);
    lemma_index_keys(sources, b);
    lemma_later_post_stands_first(dated_all(visible_posts(sources))->Ok_0, a, b);
}

/// Posts of one date stand in the index in the reverse of the order in which
/// their sources were given: the sort keeps the order of equal keys, and the
/// reversal of the whole sequence turns it round.
pub proof fn lemma_same_date_in_reverse_order(sources: Seq<SourceModel>, key: Timestamp)
    requires
        sorted_posts(sources) is Ok,
    ensures
        index_of(sources).filter(is_dated(key)) == visible_posts(sources).filter(
            is_dated(key),
        ).reverse(),
{
    let visible = visible_posts(sources);
    let dated = dated_all(visible)->Ok_0;
    let index = dated_index(sources);
    let on_day = is_dated(key);
    let lifted = |item: DatedModel| on_day(post_of()(item));
    let same = |item: DatedModel| item.key == key;
    lemma_dated_each(visible);
    lemma_filter_mapped(index, post_of(), on_day);
    lemma_filter_mapped(dated, post_of(), on_day);
    assert forall|k: int| 0 <= k < index.len() implies lifted(#[trigger] index[k]) == same(
        index[k],
    ) by {
        lemma_index_items_given(dated, k);
    }
    lemma_filter_agree(index, lifted, same);
    lemma_filter_agree(dated, lifted, same);
    lemma_equal_keys_in_reverse_order(dated, key);
}

/// In a successful run every post of the index was assembled from one of the
/// sources, is visible and carries its content.
pub proof fn lemma_index_post_origin(sources: Seq<SourceModel>, k: int)
    requires
        sorted_posts(sources) is Ok,
        0 <= k < index_of(sources).len(),
    ensures
        exists|i: int|
            0 <= i < sources.len() && (#[trigger] sources[i]).assembled() == Ok::<
                PostModel,
                ErrorModel,
            >(index_of(sources)[k]),
        index_of(sources)[k].should_publish(),
        index_of(sources)[k].content is Some,
{
    let posts = assembled_all(sources)->Ok_0;
    let shown = |post: PostModel| post.should_publish();
    let dated = dated_all(visible_posts(sources))->Ok_0;
    let post = index_of(sources)[k];
    lemma_assembled_each(sources);
    lemma_dated_each(visible_posts(sources));
    lemma_index_keys(sources, k);
    lemma_index_items_given(dated, k);
    let j = choose|j: int| 0 <= j < dated.len() && dated[j] == dated_index(sources)[k];
    posts.lemma_filter_pred(shown, j);
    posts.lemma_filter_contains_rev(shown, post);
    let i = choose|i: int| 0 <= i < posts.len() && posts[i] == post;
    assert(sources[i].assembled() == Ok::<PostModel, ErrorModel>(posts[i]));
}

/// Sources that can each be assembled can be assembled together.
pub proof fn lemma_assembly_succeeds(sources: Seq<SourceModel>)
    requires
        forall|j: int| 0 <= j < sources.len() ==> (#[trigger] sources[j]).assembled() is Ok,
    ensures
        assembled_all(sources) is Ok,
    decreases sources.len(),
{
    if sources.len() > 0 {
        lemma_assembly_succeeds(sources.drop_last());
    }
}

/// The run fails with the failure of the first source that cannot be
/// assembled, whatever follows it: no index comes of such a run, and so no
/// page.
pub proof fn lemma_first_failure_ends_run(sources: Seq<SourceModel>, i: int)
    requires
        0 <= i < sources.len(),
        sources[i].assembled() is Err,
        forall|j: int| 0 <= j < i ==> (#[trigger] sources[j]).assembled() is Ok,
    ensures
        sorted_posts(sources) == Err::<Seq<PostModel>, ErrorModel>(
            sources[i].assembled()->Err_0,
        ),
{
    let front = sources.take(i);
    lemma_assembly_succeeds(front);
    assert(sources.take(i + 1).drop_last() =~= front);
    lemma_assembly_failure_persists(sources, i + 1);
}

/// A metadata file without a body file ends the run with the read failure
/// that names its post, where every source before it can be assembled.
pub proof fn lemma_missing_body_ends_run(sources: Seq<SourceModel>, i: int)
    requires
        0 <= i < sources.len(),
        sources[i].metadata is Some,
        sources[i].markdown is None,
        forall|j: int| 0 <= j < i ==> (#[trigger] sources[j]).assembled() is Ok,
    ensures
        sorted_posts(sources) == Err::<Seq<PostModel>, ErrorModel>(
            ErrorModel::ContentRead { identifier: sources[i].identifier },
        ),
{
    lemma_first_failure_ends_run(sources, i);
}

/// Posts whose dates each normalize can be dated together.
pub proof fn lemma_dating_succeeds(posts: Seq<PostModel>)
    requires
        forall|j: int| 0 <= j < posts.len() ==> (#[trigger] posts[j]).date_key() is Some,
    ensures
        dated_all(posts) is Ok,
    decreases posts.len(),
{
    if posts.len() > 0 {
        lemma_dating_succeeds(posts.drop_last());
    }
}

/// Where every source can be assembled, the run fails with the date of the
/// first visible post whose date does not normalize. The dates of hidden
/// posts are not looked at.
pub proof fn lemma_first_bad_date_ends_run(sources: Seq<SourceModel>, k: int)
    requires
        assembled_all(sources) is Ok,
        0 <= k < visible_posts(sources).len(),
        visible_posts(sources)[k].date_key() is None,
        forall|j: int| 0 <= j < k ==> (#[trigger] visible_posts(sources)[j]).date_key() is Some,
    ensures
        sorted_posts(sources) == Err::<Seq<PostModel>, ErrorModel>(
            visible_posts(sources)[k].date_failure(),
        ),
{
    let visible = visible_posts(sources);
    let front = visible.take(k);
    lemma_dating_succeeds(front);
    assert(visible.take(k + 1).drop_last() =~= front);
    lemma_dating_failure_persists(visible, k + 1);
}

/// A run is decided by what was read and by nothing else: over sources that
/// hold the same, two runs fail alike or give the same index, the same page
/// jobs and the same index job.
pub proof fn lemma_same_sources_same_plan(first: Seq<SourceModel>, second: Seq<SourceModel>)
    requires
        first == second,
    ensures
        sorted_posts(first) == sorted_posts(second),
        sorted_posts(first) is Ok ==> page_jobs(index_of(first)) == page_jobs(index_of(second)),
        sorted_posts(first) is Ok ==> index_job(index_of(first)) == index_job(index_of(second)),
{
}

} // verus!
