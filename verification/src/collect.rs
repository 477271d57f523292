//! Collection of the posts of a run: assembly of each post from what was
//! read for it, the publish filter, the sort keys, and the index order.

use crate::error::{ErrorModel, PipelineError};
use crate::html::{annotated, fix_html, markdown_html};
use crate::ordering::{newest_first, order_posts, DatedModel, DatedPost};
use crate::post::{PostData, PostModel};
use vstd::prelude::*;

verus! {

/// What was read for one discovered post.
#[derive(Clone, Debug, PartialEq, Eq)]
pub struct PostSource {
    /// The base name of the metadata file.
    pub identifier: String,
    /// The decoded metadata file; `None` where it is missing or malformed.
    pub metadata: Option<PostData>,
    /// The text of the Markdown body file; `None` where it is missing or
    /// unreadable.
    pub markdown: Option<String>,
}

/// What a `PostSource` holds.
#[verifier::ext_equal]
pub struct SourceModel {
    pub identifier: Seq<char>,
    pub metadata: Option<PostModel>,
    pub markdown: Option<Seq<char>>,
}

impl View for PostSource {
    type V = SourceModel;

    open spec fn view(&self) -> SourceModel {
        SourceModel {
            identifier: self.identifier@,
            metadata: match self.metadata {
                Some(metadata) => Some(metadata@),
                None => None,
            },
            markdown: match self.markdown {
                Some(markdown) => Some(markdown@),
                None => None,
            },
        }
    }
}

impl DeepView for PostSource {
    type V = SourceModel;

    open spec fn deep_view(&self) -> SourceModel {
        self@
    }
}

/// The decoded metadata under the identifier of the source and with the
/// given HTML as content.
pub open spec fn with_content(
    metadata: PostModel,
    identifier: Seq<char>,
    html: Seq<char>,
) -> PostModel {
    PostModel {
        identifier,
        title: metadata.title,
        url: metadata.url,
        time: metadata.time,
        content: Some(html),
        image: metadata.image,
        image_contribution: metadata.image_contribution,
        intro: metadata.intro,
        publish: metadata.publish,
    }
}

impl SourceModel {
    /// The post assembled from the source: its metadata, with the body
    /// rendered to HTML and annotated as content. Without metadata the
    /// assembly fails at the decode stage, without a body at the read stage.
    pub open spec fn assembled(self) -> Result<PostModel, ErrorModel> {
        match self.metadata {
            None => Err(ErrorModel::MetadataDecode { identifier: self.identifier }),
            Some(metadata) => match self.markdown {
                None => Err(ErrorModel::ContentRead { identifier: self.identifier }),
                Some(markdown) => Ok(
                    with_content(metadata, self.identifier, annotated(markdown_html(markdown))),
                ),
            },
        }
    }
}

/// The outcome of a step that gives one post, as models.
pub open spec fn post_outcome(outcome: Result<PostData, PipelineError>) -> Result<
    PostModel,
    ErrorModel,
> {
    match outcome {
        Ok(post) => Ok(post@),
        Err(error) => Err(error@),
    }
}

/// The outcome of a step that gives a sequence of posts, as models.
pub open spec fn posts_outcome(outcome: Result<Vec<PostData>, PipelineError>) -> Result<
    Seq<PostModel>,
    ErrorModel,
> {
    match outcome {
        Ok(posts) => Ok(posts.deep_view()),
        Err(error) => Err(error@),
    }
}

/// The outcome of a step that gives a sequence of dated posts, as models.
pub open spec fn dated_outcome(outcome: Result<Vec<DatedPost>, PipelineError>) -> Result<
    Seq<DatedModel>,
    ErrorModel,
> {
    match outcome {
        Ok(dated) => Ok(dated.deep_view()),
        Err(error) => Err(error@),
    }
}

/// The posts assembled from the sources, in their order; the failure of the
/// first source that cannot be assembled, where there is one.
pub open spec fn assembled_all(sources: Seq<SourceModel>) -> Result<Seq<PostModel>, ErrorModel>
    decreases sources.len(),
{
    if sources.len() == 0 {
        Ok(Seq::empty())
    } else {
        match assembled_all(sources.drop_last()) {
            Err(error) => Err(error),
            Ok(posts) => match sources.last().assembled() {
                Err(error) => Err(error),
                Ok(post) => Ok(posts.push(post)),
            },
        }
    }
}

/// The visible posts, in their order.
pub open spec fn published(posts: Seq<PostModel>) -> Seq<PostModel> {
    posts.filter(|post: PostModel| post.should_publish())
}

/// The posts, each with the sort key of its date; the failure of the first
/// post whose date cannot be normalized, where there is one.
pub open spec fn dated_all(posts: Seq<PostModel>) -> Result<Seq<DatedModel>, ErrorModel>
    decreases posts.len(),
{
    if posts.len() == 0 {
        Ok(Seq::empty())
    } else {
        match dated_all(posts.drop_last()) {
            Err(error) => Err(error),
            Ok(dated) => match posts.last().date_key() {
                None => Err(posts.last().date_failure()),
                Some(key) => Ok(dated.push(DatedModel { key, post: posts.last() })),
            },
        }
    }
}

/// The index of a run: every source assembled, the hidden posts dropped, the
/// rest dated and put in index order. The run fails with the first source
/// that cannot be assembled, else with the first visible post whose date
/// cannot be normalized.
pub open spec fn sorted_posts(sources: Seq<SourceModel>) -> Result<Seq<PostModel>, ErrorModel> {
    match assembled_all(sources) {
        Err(error) => Err(error),
        Ok(posts) => match dated_all(published(posts)) {
            Err(error) => Err(error),
            Ok(dated) => Ok(newest_first(dated)),
        },
    }
}

/// A failure among the first sources is the failure of the whole assembly.
pub proof fn lemma_assembly_failure_persists(sources: Seq<SourceModel>, n: int)
    requires
        0 <= n <= sources.len(),
        assembled_all(sources.take(n)) is Err,
    ensures
        assembled_all(sources) == assembled_all(sources.take(n)),
    decreases sources.len() - n,
{
    if n < sources.len() {
        assert(sources.take(n + 1).drop_last() =~= sources.take(n));
        lemma_assembly_failure_persists(sources, n + 1);
    } else {
        assert(sources.take(n) =~= sources);
    }
}

/// A failure among the first posts is the failure of the whole dating.
pub proof fn lemma_dating_failure_persists(posts: Seq<PostModel>, n: int)
    requires
        0 <= n <= posts.len(),
        dated_all(posts.take(n)) is Err,
    ensures
        dated_all(posts) == dated_all(posts.take(n)),
    decreases posts.len() - n,
{
    if n < posts.len() {
        assert(posts.take(n + 1).drop_last() =~= posts.take(n));
        lemma_dating_failure_persists(posts, n + 1);
    } else {
        assert(posts.take(n) =~= posts);
    }
}

/// Assembles one post: the metadata under the identifier of the source, with
/// the Markdown body rendered to HTML and annotated as its content.
pub fn assemble(source: PostSource) -> (outcome: Result<PostData, PipelineError>)
    ensures
        post_outcome(outcome) == source@.assembled(),
{
    let PostSource { identifier, metadata, markdown } = source;
    match metadata {
        None => Err(PipelineError::MetadataDecode { identifier }),
        Some(decoded) => match markdown {
            None => Err(PipelineError::ContentRead { identifier }),
            Some(body) => {
                let html = fix_html(body.as_str());
                Ok(
                    PostData {
                        identifier,
                        title: decoded.title,
                        url: decoded.url,
                        time: decoded.time,
                        content: Some(html),
                        image: decoded.image,
                        image_contribution: decoded.image_contribution,
                        intro: decoded.intro,
                        publish: decoded.publish,
                    },
                )
            },
        },
    }
}

/// Assembles every source in order and stops at the first that fails.
pub fn assemble_posts(sources: Vec<PostSource>) -> (outcome: Result<Vec<PostData>, PipelineError>)
    ensures
        posts_outcome(outcome) == assembled_all(sources.deep_view()),
{
    let ghost given = sources.deep_view();
    let mut posts: Vec<PostData> = Vec::new();
    assert(posts.deep_view() =~= Seq::<PostModel>::empty());
    for source in it: sources.into_iter()
        invariant
            given == sources.deep_view(),
            it.seq().len() == given.len(),
            forall|k: int| 0 <= k < given.len() ==> (#[trigger] it.seq()[k])@ == given[k],
            assembled_all(given.take(it.index() as int)) == Ok::<Seq<PostModel>, ErrorModel>(
                posts.deep_view(),
            ),
    {
        let ghost before = posts.deep_view();
        proof {
            assert(given.take(it.index() + 1).drop_last() =~= given.take(it.index() as int));
        }
        match assemble(source) {
            Err(error) => {
                proof {
                    lemma_assembly_failure_persists(given, it.index() + 1);
                }
                return Err(error);
            },
            Ok(post) => {
                posts.push(post);
                assert(posts.deep_view() =~= before.push(post@));
            },
        }
    }
    assert(given.take(given.len() as int) =~= given);
    Ok(posts)
}

/// Keeps the visible posts, in their order.
pub fn published_posts(posts: Vec<PostData>) -> (visible: Vec<PostData>)
    ensures
        visible.deep_view() == published(posts.deep_view()),
{
    let ghost given = posts.deep_view();
    let mut visible: Vec<PostData> = Vec::new();
    proof {
        reveal(Seq::filter);
    }
    for post in it: posts.into_iter()
        invariant
            it.seq().len() == given.len(),
            forall|k: int| 0 <= k < given.len() ==> (#[trigger] it.seq()[k])@ == given[k],
            visible.deep_view() == published(given.take(it.index() as int)),
    {
        proof {
            reveal(Seq::filter);
            assert(given.take(it.index() + 1).drop_last() =~= given.take(it.index() as int));
        }
        if post.should_publish() {
            visible.push(post);
        }
    }
    assert(given.take(given.len() as int) =~= given);
    visible
}

/// Gives every post the sort key of its date and stops at the first post
/// whose date cannot be normalized.
pub fn date_posts(posts: Vec<PostData>) -> (outcome: Result<Vec<DatedPost>, PipelineError>)
    ensures
        dated_outcome(outcome) == dated_all(posts.deep_view()),
{
    let ghost given = posts.deep_view();
    let mut dated: Vec<DatedPost> = Vec::new();
    assert(dated.deep_view() =~= Seq::<DatedModel>::empty());
    for post in it: posts.into_iter()
        invariant
            given == posts.deep_view(),
            it.seq().len() == given.len(),
            forall|k: int| 0 <= k < given.len() ==> (#[trigger] it.seq()[k])@ == given[k],
            dated_all(given.take(it.index() as int)) == Ok::<Seq<DatedModel>, ErrorModel>(
                dated.deep_view(),
            ),
    {
        let ghost before = dated.deep_view();
        proof {
            assert(given.take(it.index() + 1).drop_last() =~= given.take(it.index() as int));
        }
        match post.get_datetime() {
            Err(error) => {
                proof {
                    lemma_dating_failure_persists(given, it.index() + 1);
                }
                return Err(error);
            },
            Ok(key) => {
                dated.push(DatedPost { key, post });
                assert(dated.deep_view() =~= before.push(DatedModel { key, post: post@ }));
            },
        }
    }
    assert(given.take(given.len() as int) =~= given);
    Ok(dated)
}

/// Produces the index of a run from what was read for each discovered post:
/// assembles every post, drops the hidden ones, and sorts the rest by date,
/// most recent first. Any failure ends the run.
pub fn get_sorted_posts_data(sources: Vec<PostSource>) -> (outcome: Result<
    Vec<PostData>,
    PipelineError,
>)
    ensures
        posts_outcome(outcome) == sorted_posts(sources.deep_view()),
{
    let posts = match assemble_posts(sources) {
        Ok(posts) => posts,
        Err(error) => { return Err(error); },
    };
    let visible = published_posts(posts);
    let dated = match date_posts(visible) {
        Ok(dated) => dated,
        Err(error) => { return Err(error); },
    };
    Ok(order_posts(dated))
}

} // verus!
