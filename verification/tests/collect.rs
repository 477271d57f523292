use blog_pipeline::collect::{
    assemble, assemble_posts, date_posts, get_sorted_posts_data, published_posts, PostSource,
};
use blog_pipeline::date::Timestamp;
use blog_pipeline::error::PipelineError;
use blog_pipeline::post::PostData;
use blog_pipeline::render::{generate_index_page, generate_post_pages};

fn decoded(time: &str, publish: Option<bool>) -> PostData {
    PostData {
        identifier: String::new(),
        title: "A title".to_string(),
        url: "a-url".to_string(),
        time: time.to_string(),
        content: None,
        image: "image.png".to_string(),
        image_contribution: "by someone".to_string(),
        intro: "An intro".to_string(),
        publish,
    }
}

fn source(identifier: &str, time: &str, publish: Option<bool>) -> PostSource {
    PostSource {
        identifier: identifier.to_string(),
        metadata: Some(decoded(time, publish)),
        markdown: Some(format!("# {}\n\nBody of {}", identifier, identifier)),
    }
}

fn names(posts: &Vec<PostData>) -> Vec<String> {
    posts.iter().map(|post| post.identifier.clone()).collect()
}

fn styled_body(identifier: &str) -> String {
    format!(
        "<h1 class=\"title bigtext primary-text\">{}</h1>\n<p class=\"text\">Body of {}</p>\n",
        identifier, identifier
    )
}

#[test]
fn assemble_fills_identifier_and_content() {
    let post = assemble(source("hello", "2021-06-15", Some(true))).unwrap();
    assert_eq!(
        post,
        PostData {
            identifier: "hello".to_string(),
            title: "A title".to_string(),
            url: "a-url".to_string(),
            time: "2021-06-15".to_string(),
            content: Some(styled_body("hello")),
            image: "image.png".to_string(),
            image_contribution: "by someone".to_string(),
            intro: "An intro".to_string(),
            publish: Some(true),
        }
    );
}

#[test]
fn assemble_replaces_content_found_in_the_metadata() {
    let mut given = source("hello", "2021-06-15", None);
    given.metadata.as_mut().unwrap().content = Some("stale".to_string());
    given.metadata.as_mut().unwrap().identifier = "other".to_string();
    let post = assemble(given).unwrap();
    assert_eq!(post.content, Some(styled_body("hello")));
    assert_eq!(post.identifier, "hello");
    assert_eq!(post.publish, None);
}

#[test]
fn assemble_without_metadata_fails_at_decoding() {
    let given = PostSource {
        identifier: "hello".to_string(),
        metadata: None,
        markdown: Some("text".to_string()),
    };
    assert_eq!(
        assemble(given),
        Err(PipelineError::MetadataDecode { identifier: "hello".to_string() })
    );
}

#[test]
fn assemble_without_body_fails_at_reading() {
    let given = PostSource {
        identifier: "hello".to_string(),
        metadata: Some(decoded("2021-06-15", None)),
        markdown: None,
    };
    assert_eq!(
        assemble(given),
        Err(PipelineError::ContentRead { identifier: "hello".to_string() })
    );
}

#[test]
fn assemble_without_anything_reports_the_metadata() {
    let given = PostSource { identifier: "hello".to_string(), metadata: None, markdown: None };
    assert_eq!(
        assemble(given),
        Err(PipelineError::MetadataDecode { identifier: "hello".to_string() })
    );
}

#[test]
fn assemble_posts_keeps_the_order_of_the_sources() {
    let posts = assemble_posts(vec![
        source("b", "2021-01-01", None),
        source("a", "2021-01-02", Some(false)),
        source("c", "bad date", None),
    ])
    .unwrap();
    assert_eq!(names(&posts), vec!["b", "a", "c"]);
    assert_eq!(posts[1].content, Some(styled_body("a")));
}

#[test]
fn assemble_posts_stops_at_the_first_failure() {
    let mut second = source("second", "2021-01-01", None);
    second.markdown = None;
    let mut third = source("third", "2021-01-01", None);
    third.metadata = None;
    assert_eq!(
        assemble_posts(vec![source("first", "2021-01-01", None), second, third]),
        Err(PipelineError::ContentRead { identifier: "second".to_string() })
    );
}

#[test]
fn published_posts_drops_only_explicitly_hidden_posts() {
    let posts = assemble_posts(vec![
        source("unset", "2021-01-01", None),
        source("hidden", "2021-01-02", Some(false)),
        source("shown", "2021-01-03", Some(true)),
        source("hidden-too", "2021-01-04", Some(false)),
    ])
    .unwrap();
    assert_eq!(names(&published_posts(posts)), vec!["unset", "shown"]);
}

#[test]
fn date_posts_pairs_each_post_with_its_key() {
    let posts = assemble_posts(vec![
        source("a", "2021-06-16", None),
        source("b", "2021-06-15", None),
    ])
    .unwrap();
    let dated = date_posts(posts.clone()).unwrap();
    assert_eq!(dated.len(), 2);
    assert_eq!(dated[0].key, Timestamp { seconds: 1623801600, nanos: 0 });
    assert_eq!(dated[1].key, Timestamp { seconds: 1623715200, nanos: 0 });
    assert_eq!(dated[0].post, posts[0]);
    assert_eq!(dated[1].post, posts[1]);
}

#[test]
fn date_posts_stops_at_the_first_bad_date() {
    let posts = assemble_posts(vec![
        source("fine", "2021-06-16", None),
        source("month", "2017-13-31", None),
        source("shape", "yesterday", None),
    ])
    .unwrap();
    assert_eq!(
        date_posts(posts),
        Err(PipelineError::DateParse {
            identifier: "month".to_string(),
            raw: "2017-13-31".to_string(),
        })
    );
}

#[test]
fn visible_posts_stand_once_in_index_and_pages() {
    let index = get_sorted_posts_data(vec![
        source("unset", "2021-03-01", None),
        source("hidden", "2021-04-01", Some(false)),
        source("shown", "2021-05-01", Some(true)),
    ])
    .unwrap();
    for identifier in ["unset", "shown"] {
        assert_eq!(index.iter().filter(|post| post.identifier == identifier).count(), 1);
        let pages = generate_post_pages(&index);
        assert_eq!(pages.iter().filter(|page| page.output == identifier).count(), 1);
        let listing = generate_index_page(&index);
        assert_eq!(listing.data.iter().filter(|post| post.identifier == identifier).count(), 1);
    }
    assert_eq!(index.len(), 2);
}

#[test]
fn hidden_posts_reach_neither_index_nor_pages() {
    let index = get_sorted_posts_data(vec![
        source("hidden", "2021-04-01", Some(false)),
        source("shown", "2021-05-01", None),
        source("hidden-as-well", "2021-06-01", Some(false)),
    ])
    .unwrap();
    assert_eq!(names(&index), vec!["shown"]);
    let pages = generate_post_pages(&index);
    assert!(pages.iter().all(|page| page.output != "hidden" && page.output != "hidden-as-well"));
    assert!(generate_index_page(&index).data.iter().all(|post| post.should_publish()));
}

#[test]
fn index_runs_from_latest_to_oldest() {
    let index = get_sorted_posts_data(vec![
        source("middle", "2021-06-15", None),
        source("oldest", "2019-12-31", None),
        source("latest", "2021-06-16", Some(true)),
        source("old", "2020-01-01", None),
    ])
    .unwrap();
    assert_eq!(names(&index), vec!["latest", "middle", "old", "oldest"]);
}

#[test]
fn posts_of_one_date_come_in_reverse_of_discovery() {
    let index = get_sorted_posts_data(vec![
        source("a", "2021-06-15", None),
        source("b", "2021-06-15", None),
        source("new", "2021-06-16", None),
        source("c", "2021-06-15", None),
    ])
    .unwrap();
    assert_eq!(names(&index), vec!["new", "c", "b", "a"]);
}

#[test]
fn every_post_of_the_index_carries_its_content() {
    let index = get_sorted_posts_data(vec![
        source("a", "2021-06-15", None),
        source("b", "2021-06-16", Some(true)),
    ])
    .unwrap();
    assert_eq!(index[0].content, Some(styled_body("b")));
    assert_eq!(index[1].content, Some(styled_body("a")));
}

#[test]
fn missing_body_aborts_with_content_read_error() {
    let mut lacking = source("lacking", "2021-06-15", None);
    lacking.markdown = None;
    assert_eq!(
        get_sorted_posts_data(vec![lacking]),
        Err(PipelineError::ContentRead { identifier: "lacking".to_string() })
    );
}

#[test]
fn missing_body_leaves_no_index_for_any_post() {
    let mut lacking = source("lacking", "2021-06-15", None);
    lacking.markdown = None;
    let outcome = get_sorted_posts_data(vec![
        source("fine", "2021-06-14", None),
        lacking,
        source("fine-too", "2021-06-16", None),
    ]);
    assert_eq!(outcome, Err(PipelineError::ContentRead { identifier: "lacking".to_string() }));
}

#[test]
fn missing_body_of_a_hidden_post_is_fatal_too() {
    let mut lacking = source("draft", "2021-06-15", Some(false));
    lacking.markdown = None;
    assert_eq!(
        get_sorted_posts_data(vec![source("fine", "2021-06-14", None), lacking]),
        Err(PipelineError::ContentRead { identifier: "draft".to_string() })
    );
}

#[test]
fn missing_metadata_aborts_with_decode_error() {
    let mut broken = source("broken", "2021-06-15", None);
    broken.metadata = None;
    assert_eq!(
        get_sorted_posts_data(vec![source("fine", "2021-06-14", None), broken]),
        Err(PipelineError::MetadataDecode { identifier: "broken".to_string() })
    );
}

#[test]
fn bad_date_aborts_with_date_parse_error() {
    assert_eq!(
        get_sorted_posts_data(vec![
            source("fine", "2021-06-14", None),
            source("broken", "2017-13-31", None),
        ]),
        Err(PipelineError::DateParse {
            identifier: "broken".to_string(),
            raw: "2017-13-31".to_string(),
        })
    );
}

#[test]
fn bad_date_of_a_single_post_aborts() {
    assert_eq!(
        get_sorted_posts_data(vec![source("only", "soon", None)]),
        Err(PipelineError::DateParse { identifier: "only".to_string(), raw: "soon".to_string() })
    );
}

#[test]
fn bad_date_of_a_hidden_post_is_never_looked_at() {
    let index = get_sorted_posts_data(vec![
        source("draft", "some day", Some(false)),
        source("fine", "2021-06-14", None),
    ])
    .unwrap();
    assert_eq!(names(&index), vec!["fine"]);
}

#[test]
fn assembly_failures_come_before_date_failures() {
    let mut lacking = source("lacking", "2021-06-15", None);
    lacking.markdown = None;
    assert_eq!(
        get_sorted_posts_data(vec![source("broken", "2017-13-31", None), lacking]),
        Err(PipelineError::ContentRead { identifier: "lacking".to_string() })
    );
}

#[test]
fn no_sources_give_an_empty_index() {
    assert_eq!(get_sorted_posts_data(Vec::new()), Ok(Vec::new()));
}

#[test]
fn same_sources_give_the_same_index_and_jobs() {
    let sources = vec![
        source("a", "2021-06-15", None),
        source("b", "2021-06-15", Some(true)),
        source("c", "2020-02-29", None),
        source("d", "2021-06-15", Some(false)),
    ];
    let first = get_sorted_posts_data(sources.clone()).unwrap();
    let second = get_sorted_posts_data(sources).unwrap();
    assert_eq!(first, second);
    let first_pages = generate_post_pages(&first);
    let second_pages = generate_post_pages(&second);
    assert_eq!(first_pages.len(), second_pages.len());
    for (one, other) in first_pages.iter().zip(second_pages.iter()) {
        assert_eq!(one.template, other.template);
        assert_eq!(one.output, other.output);
        assert_eq!(one.data, other.data);
    }
}
