use blog_pipeline::date::Timestamp;
use blog_pipeline::error::PipelineError;
use blog_pipeline::post::PostData;

fn record(identifier: &str, time: &str, publish: Option<bool>) -> PostData {
    PostData {
        identifier: identifier.to_string(),
        title: "Title".to_string(),
        url: identifier.to_string(),
        time: time.to_string(),
        content: None,
        image: "image.png".to_string(),
        image_contribution: "someone".to_string(),
        intro: "Intro".to_string(),
        publish,
    }
}

#[test]
fn post_without_publish_is_visible() {
    assert!(record("a", "2021-06-15", None).should_publish());
}

#[test]
fn post_with_publish_true_is_visible() {
    assert!(record("a", "2021-06-15", Some(true)).should_publish());
}

#[test]
fn post_with_publish_false_is_hidden() {
    assert!(!record("a", "2021-06-15", Some(false)).should_publish());
}

#[test]
fn get_datetime_normalizes_the_time_field() {
    assert_eq!(
        record("a", "2021-06-15", None).get_datetime(),
        Ok(Timestamp { seconds: 1623715200, nanos: 0 })
    );
    assert_eq!(
        record("a", "2018-02-28", Some(false)).get_datetime(),
        Ok(Timestamp { seconds: 1519776000, nanos: 0 })
    );
}

#[test]
fn get_datetime_names_the_post_and_the_raw_date() {
    assert_eq!(
        record("broken", "2017-13-31", None).get_datetime(),
        Err(PipelineError::DateParse {
            identifier: "broken".to_string(),
            raw: "2017-13-31".to_string(),
        })
    );
    assert_eq!(
        record("empty", "", None).get_datetime(),
        Err(PipelineError::DateParse { identifier: "empty".to_string(), raw: "".to_string() })
    );
}
