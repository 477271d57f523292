//! Dispatch of the output: one job for the page of each post of the index,
//! one job for the index itself, and the copy of the static assets at the
//! end.

use crate::post::{PostData, PostModel};
use vstd::prelude::*;

verus! {

/// The template of the page of a single post.
pub const POST_TEMPLATE: &'static str = "post";

/// The template of the index page.
pub const INDEX_TEMPLATE: &'static str = "index";

/// The output name of the index page.
pub const INDEX_OUTPUT: &'static str = "index";

/// The rendering of the page of one post.
#[derive(Clone, Copy, Debug)]
pub struct PageJob<'a> {
    /// The template to render.
    pub template: &'static str,
    /// The name of the page: the identifier of the post.
    pub output: &'a str,
    /// The post that the template is rendered with.
    pub data: &'a PostData,
}

/// The rendering of the index page.
#[derive(Clone, Copy, Debug)]
pub struct IndexJob<'a> {
    /// The template to render.
    pub template: &'static str,
    /// The name of the page.
    pub output: &'static str,
    /// The posts of the index, in display order.
    pub data: &'a Vec<PostData>,
}

/// One step of the output of a run.
#[derive(Clone, Copy, Debug)]
pub enum OutputStep<'a> {
    /// Render the page of one post.
    Page(PageJob<'a>),
    /// Render the index page.
    Index(IndexJob<'a>),
    /// Copy the static assets into the generated site.
    CopyAssets,
}

/// What a `PageJob` asks for.
#[verifier::ext_equal]
pub struct PageModel {
    pub template: Seq<char>,
    pub output: Seq<char>,
    pub data: PostModel,
}

/// What an `IndexJob` asks for.
#[verifier::ext_equal]
pub struct IndexModel {
    pub template: Seq<char>,
    pub output: Seq<char>,
    pub data: Seq<PostModel>,
}

/// What an `OutputStep` asks for.
#[verifier::ext_equal]
pub enum StepModel {
    Page(PageModel),
    Index(IndexModel),
    CopyAssets,
}

impl<'a> View for PageJob<'a> {
    type V = PageModel;

    open spec fn view(&self) -> PageModel {
        PageModel { template: self.template@, output: self.output@, data: self.data@ }
    }
}

impl<'a> DeepView for PageJob<'a> {
    type V = PageModel;

    open spec fn deep_view(&self) -> PageModel {
        self@
    }
}

impl<'a> View for IndexJob<'a> {
    type V = IndexModel;

    open spec fn view(&self) -> IndexModel {
        IndexModel {
            template: self.template@,
            output: self.output@,
            data: self.data.deep_view(),
        }
    }
}

impl<'a> View for OutputStep<'a> {
    type V = StepModel;

    open spec fn view(&self) -> StepModel {
        match self {
            OutputStep::Page(job) => StepModel::Page(job@),
            OutputStep::Index(job) => StepModel::Index(job@),
            OutputStep::CopyAssets => StepModel::CopyAssets,
        }
    }
}

impl<'a> DeepView for OutputStep<'a> {
    type V = StepModel;

    open spec fn deep_view(&self) -> StepModel {
        self@
    }
}

/// The job for the page of a post: the post template, rendered with the post
/// under the post's identifier.
pub open spec fn page_of(post: PostModel) -> PageModel {
    PageModel { template: POST_TEMPLATE@, output: post.identifier, data: post }
}

/// The jobs for the pages of the posts: one for each post, in their order.
pub open spec fn page_jobs(posts: Seq<PostModel>) -> Seq<PageModel> {
    posts.map_values(|post: PostModel| page_of(post))
}

/// The job for the index: the index template, rendered with all posts in
/// their order under the name of the index.
pub open spec fn index_job(posts: Seq<PostModel>) -> IndexModel {
    IndexModel { template: INDEX_TEMPLATE@, output: INDEX_OUTPUT@, data: posts }
}

/// The output of a run in the order in which it is made: the page of every
/// post in index order, then the index, then the copy of the static assets.
/// The assets are copied whatever the index holds, and after every page.
pub open spec fn output_steps(posts: Seq<PostModel>) -> Seq<StepModel> {
    page_jobs(posts).map_values(|page: PageModel| StepModel::Page(page)) + seq![
        StepModel::Index(index_job(posts)),
        StepModel::CopyAssets,
    ]
}

/// Plans the page of every post of the index, in index order.
pub fn generate_post_pages<'a>(posts_data: &'a Vec<PostData>) -> (jobs: Vec<PageJob<'a>>)
    ensures
        jobs.deep_view() == page_jobs(posts_data.deep_view()),
{
    let mut jobs: Vec<PageJob<'a>> = Vec::new();
    let mut i: usize = 0;
    while i < posts_data.len()
        invariant
            i <= posts_data.len(),
            jobs.deep_view() == page_jobs(posts_data.deep_view().take(i as int)),
        decreases posts_data.len() - i,
    {
        let ghost before = jobs.deep_view();
        let data = &posts_data[i];
        jobs.push(PageJob { template: POST_TEMPLATE, output: data.identifier.as_str(), data });
        assert(jobs.deep_view() =~= before.push(page_of(data@)));
        i += 1;
    }
    jobs
}

/// Plans the index page over all posts of the index.
pub fn generate_index_page<'a>(posts_data: &'a Vec<PostData>) -> (job: IndexJob<'a>)
    ensures
        job@ == index_job(posts_data.deep_view()),
{
    IndexJob { template: INDEX_TEMPLATE, output: INDEX_OUTPUT, data: posts_data }
}

/// Plans the output of a run: every page, the index, and the copy of the
/// static assets, in the order in which they are to be made.
pub fn plan_output<'a>(posts_data: &'a Vec<PostData>) -> (steps: Vec<OutputStep<'a>>)
    ensures
        steps.deep_view() == output_steps(posts_data.deep_view()),
{
    let pages = generate_post_pages(posts_data);
    let mut steps: Vec<OutputStep<'a>> = Vec::new();
    let mut i: usize = 0;
    while i < pages.len()
        invariant
            i <= pages.len(),
            steps.len() == i,
            forall|k: int| 0 <= k < i ==> (#[trigger] steps[k])@ == StepModel::Page(pages[k]@),
        decreases pages.len() - i,
    {
        steps.push(OutputStep::Page(pages[i]));
        i += 1;
    }
    steps.push(OutputStep::Index(generate_index_page(posts_data)));
    steps.push(OutputStep::CopyAssets);
    assert(steps.deep_view() =~= output_steps(posts_data.deep_view()));
    steps
}

} // verus!
