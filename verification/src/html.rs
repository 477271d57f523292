//! HTML production for post bodies: Markdown rendering followed by a fixed
//! pass that attaches presentation classes to heading and paragraph tags.

use crate::text::{lemma_replaced_without_occurrence, occurs_at, replace_all, replaced};
use vstd::prelude::*;

verus! {

/// Opening tag of a top-level heading as the Markdown renderer emits it.
pub const HEADING_OPEN: &'static str = "<h1>";

/// Opening tag of a top-level heading with its presentation classes.
pub const HEADING_STYLED: &'static str = "<h1 class=\"title bigtext primary-text\">";

/// Opening tag of a paragraph as the Markdown renderer emits it.
pub const PARAGRAPH_OPEN: &'static str = "<p>";

/// Opening tag of a paragraph with its presentation class.
pub const PARAGRAPH_STYLED: &'static str = "<p class=\"text\">";

/// The HTML that the Markdown renderer produces for a Markdown text under its
/// default options.
pub uninterp spec fn markdown_html(markdown: Seq<char>) -> Seq<char>;

/// Calls `comrak::markdown_to_html` with `comrak::Options::default()`.
///
/// The renderer keeps no state between calls, and under the default options
/// it writes at most one attribute to a tag, so its output is a function of
/// the Markdown text alone. Nothing more is claimed of the output than that it
/// is `markdown_html` of the input.
#[verifier::external_body]
fn render_markdown(markdown: &str) -> (html: String)
    ensures
        html@ == markdown_html(markdown@),
{
    comrak::markdown_to_html(markdown, &comrak::Options::default())
}

/// `html` with every literal `<h1>` opening tag, then every literal `<p>`
/// opening tag, replaced by its styled variant. The rewrite works on
/// substrings, not on the HTML tree, and leaves every other character alone.
pub open spec fn annotated(html: Seq<char>) -> Seq<char> {
    replaced(
        replaced(html, HEADING_OPEN@, HEADING_STYLED@),
        PARAGRAPH_OPEN@,
        PARAGRAPH_STYLED@,
    )
}

/// HTML that holds neither opening tag passes through the rewrite unchanged.
pub proof fn lemma_annotated_without_tags(html: Seq<char>)
    requires
        forall|at: int| !occurs_at(html, HEADING_OPEN@, at),
        forall|at: int| !occurs_at(html, PARAGRAPH_OPEN@, at),
    ensures
        annotated(html) == html,
{
    reveal_strlit("<h1>");
    reveal_strlit("<p>");
    lemma_replaced_without_occurrence(html, HEADING_OPEN@, HEADING_STYLED@);
    lemma_replaced_without_occurrence(html, PARAGRAPH_OPEN@, PARAGRAPH_STYLED@);
}

/// Attaches the presentation classes to the heading and paragraph opening
/// tags of rendered HTML.
pub fn annotate_html(html: &str) -> (out: String)
    ensures
        out@ == annotated(html@),
{
    let headings = replace_all(html, HEADING_OPEN, HEADING_STYLED);
    replace_all(headings.as_str(), PARAGRAPH_OPEN, PARAGRAPH_STYLED)
}

/// Renders a Markdown body to HTML and attaches the presentation classes.
pub fn fix_html(input: &str) -> (out: String)
    ensures
        out@ == annotated(markdown_html(input@)),
{
    let html = render_markdown(input);
    annotate_html(html.as_str())
}

} // verus!
