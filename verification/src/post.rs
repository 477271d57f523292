//! The post record and the two questions the pipeline asks of it: whether it
//! is visible, and when it was written.

use crate::date::{date_key, normalize, Timestamp};
use crate::error::{ErrorModel, PipelineError};
use vstd::prelude::*;

verus! {

/// One blog entry.
#[derive(Clone, Debug, PartialEq, Eq)]
pub struct PostData {
    /// Base name shared by the post's metadata and body files; the key of the
    /// post and the name of its page.
    pub identifier: String,
    /// Display name.
    pub title: String,
    /// Canonical slug of the post.
    pub url: String,
    /// Date of the post, in `YYYY-MM-DD` form.
    pub time: String,
    /// Body of the post as HTML; absent until the body has been assembled.
    pub content: Option<String>,
    /// Image of the post; handed to the templates as it is.
    pub image: String,
    /// Credit for the image; handed to the templates as it is.
    pub image_contribution: String,
    /// Short summary.
    pub intro: String,
    /// `Some(false)` hides the post; an absent value counts as `true`.
    pub publish: Option<bool>,
}

/// What a `PostData` holds, as sequences of characters.
#[verifier::ext_equal]
pub struct PostModel {
    pub identifier: Seq<char>,
    pub title: Seq<char>,
    pub url: Seq<char>,
    pub time: Seq<char>,
    pub content: Option<Seq<char>>,
    pub image: Seq<char>,
    pub image_contribution: Seq<char>,
    pub intro: Seq<char>,
    pub publish: Option<bool>,
}

impl PostModel {
    /// The post is visible: `publish` is absent or `true`.
    pub open spec fn should_publish(self) -> bool {
        match self.publish {
            Some(visible) => visible,
            None => true,
        }
    }

    /// The sort key of the post, where its date can be normalized.
    pub open spec fn date_key(self) -> Option<Timestamp> {
        date_key(self.time)
    }

    /// The failure that reports the date of this post.
    pub open spec fn date_failure(self) -> ErrorModel {
        ErrorModel::DateParse { identifier: self.identifier, raw: self.time }
    }
}

impl View for PostData {
    type V = PostModel;

    open spec fn view(&self) -> PostModel {
        PostModel {
            identifier: self.identifier@,
            title: self.title@,
            url: self.url@,
            time: self.time@,
            content: match self.content {
                Some(html) => Some(html@),
                None => None,
            },
            image: self.image@,
            image_contribution: self.image_contribution@,
            intro: self.intro@,
            publish: self.publish,
        }
    }
}

impl DeepView for PostData {
    type V = PostModel;

    open spec fn deep_view(&self) -> PostModel {
        self@
    }
}

impl PostData {
    /// Whether the post is visible. A post without a `publish` value is.
    pub fn should_publish(&self) -> (visible: bool)
        ensures
            visible == self@.should_publish(),
    {
        match self.publish {
            Some(visible) => visible,
            None => true,
        }
    }

    /// The sort key of the post: its date, normalized. A date that cannot be
    /// normalized is reported with the post's identifier and the date as
    /// written.
    pub fn get_datetime(&self) -> (key: Result<Timestamp, PipelineError>)
        ensures
            match self@.date_key() {
                Some(stamp) => key == Ok::<Timestamp, PipelineError>(stamp),
                None => key is Err && key->Err_0@ == self@.date_failure(),
            },
    {
        match normalize(self.time.as_str()) {
            Ok(stamp) => Ok(stamp),
            Err(error) => Err(
                PipelineError::DateParse { identifier: self.identifier.clone(), raw: error.raw },
            ),
        }
    }
}

} // verus!
