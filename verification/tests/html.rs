use blog_pipeline::html::{
    annotate_html, fix_html, HEADING_OPEN, HEADING_STYLED, PARAGRAPH_OPEN, PARAGRAPH_STYLED,
};

#[test]
fn tag_constants_hold_the_literal_tags() {
    assert_eq!(HEADING_OPEN, "<h1>");
    assert_eq!(HEADING_STYLED, "<h1 class=\"title bigtext primary-text\">");
    assert_eq!(PARAGRAPH_OPEN, "<p>");
    assert_eq!(PARAGRAPH_STYLED, "<p class=\"text\">");
}

#[test]
fn annotate_html_styles_heading_and_paragraph() {
    assert_eq!(
        annotate_html("<h1>Hi</h1><p>Body</p>"),
        "<h1 class=\"title bigtext primary-text\">Hi</h1><p class=\"text\">Body</p>"
    );
}

#[test]
fn annotate_html_styles_every_occurrence() {
    assert_eq!(
        annotate_html("<p>a</p>\n<h1>b</h1>\n<p>c</p>\n<h1>d</h1>"),
        "<p class=\"text\">a</p>\n\
         <h1 class=\"title bigtext primary-text\">b</h1>\n\
         <p class=\"text\">c</p>\n\
         <h1 class=\"title bigtext primary-text\">d</h1>"
    );
}

#[test]
fn annotate_html_leaves_other_tags_alone() {
    let html = "<h2>Sub</h2><ul><li>x</li></ul><pre>y</pre><hr /></p></h1>";
    assert_eq!(annotate_html(html), html);
    assert_eq!(annotate_html(""), "");
    assert_eq!(annotate_html("plain text"), "plain text");
}

#[test]
fn annotate_html_does_not_touch_annotated_tags() {
    let styled = "<h1 class=\"title bigtext primary-text\">Hi</h1><p class=\"text\">Body</p>";
    assert_eq!(annotate_html(styled), styled);
    assert_eq!(annotate_html("<p class=\"other\">x</p>"), "<p class=\"other\">x</p>");
    assert_eq!(annotate_html("<h1 id=\"a\">x</h1>"), "<h1 id=\"a\">x</h1>");
}

#[test]
fn annotate_html_matches_substrings_not_elements() {
    assert_eq!(annotate_html("<code><p></code>"), "<code><p class=\"text\"></code>");
    assert_eq!(annotate_html("<P>x</P>"), "<P>x</P>");
    assert_eq!(annotate_html("< p>"), "< p>");
}

#[test]
fn fix_html_renders_markdown_then_annotates() {
    assert_eq!(
        fix_html("# Hi\n\nBody"),
        "<h1 class=\"title bigtext primary-text\">Hi</h1>\n<p class=\"text\">Body</p>\n"
    );
}

#[test]
fn fix_html_of_empty_body_is_empty() {
    assert_eq!(fix_html(""), "");
}

#[test]
fn fix_html_renders_inline_markup() {
    assert_eq!(
        fix_html("some *emphasis* and `code`"),
        "<p class=\"text\">some <em>emphasis</em> and <code>code</code></p>\n"
    );
}

#[test]
fn fix_html_leaves_lower_headings_unstyled() {
    assert_eq!(fix_html("## Sub"), "<h2>Sub</h2>\n");
}

#[test]
fn fix_html_differs_from_annotating_the_markdown() {
    let markdown = "# Hi\n\nBody";
    assert_ne!(fix_html(markdown), annotate_html(markdown));
    assert_eq!(annotate_html(markdown), markdown);
}
