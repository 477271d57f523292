//! The ways in which a generation run fails. Every failure is fatal to the
//! run; none is retried.

use crate::text::join;
use vstd::prelude::*;

verus! {

/// A failure of the generation run, with what identifies its cause.
#[derive(Clone, Debug, PartialEq, Eq)]
pub enum PipelineError {
    /// The post-data directory could not be listed.
    DirectoryAccess { path: String },
    /// The metadata file of a post is missing or malformed.
    MetadataDecode { identifier: String },
    /// The body file of a post is missing or unreadable.
    ContentRead { identifier: String },
    /// The date of a post is not a calendar date in `YYYY-MM-DD` form.
    DateParse { identifier: String, raw: String },
    /// A page could not be rendered.
    Render { output: String },
}

/// What a `PipelineError` holds, as sequences of characters.
#[verifier::ext_equal]
pub enum ErrorModel {
    DirectoryAccess { path: Seq<char> },
    MetadataDecode { identifier: Seq<char> },
    ContentRead { identifier: Seq<char> },
    DateParse { identifier: Seq<char>, raw: Seq<char> },
    Render { output: Seq<char> },
}

impl ErrorModel {
    /// The text that reports the failure: the stage that failed and the post,
    /// page or directory it failed on.
    pub open spec fn message(self) -> Seq<char> {
        match self {
            ErrorModel::DirectoryAccess { path } => "cannot list the post directory: "@ + path,
            ErrorModel::MetadataDecode { identifier } => "cannot decode the metadata of post: "@
                + identifier,
            ErrorModel::ContentRead { identifier } => "cannot read the content of post: "@
                + identifier,
            ErrorModel::DateParse { identifier, raw } => "cannot parse the date of post: "@
                + identifier + ": "@ + raw,
            ErrorModel::Render { output } => "cannot render the page: "@ + output,
        }
    }
}

impl View for PipelineError {
    type V = ErrorModel;

    open spec fn view(&self) -> ErrorModel {
        match self {
            PipelineError::DirectoryAccess { path } => ErrorModel::DirectoryAccess { path: path@ },
            PipelineError::MetadataDecode { identifier } => ErrorModel::MetadataDecode {
                identifier: identifier@,
            },
            PipelineError::ContentRead { identifier } => ErrorModel::ContentRead {
                identifier: identifier@,
            },
            PipelineError::DateParse { identifier, raw } => ErrorModel::DateParse {
                identifier: identifier@,
                raw: raw@,
            },
            PipelineError::Render { output } => ErrorModel::Render { output: output@ },
        }
    }
}

impl PipelineError {
    /// The text that reports the failure.
    pub fn message(&self) -> (text: String)
        ensures
            text@ == self@.message(),
    {
        match self {
            PipelineError::DirectoryAccess { path } => join(
                "cannot list the post directory: ",
                path.as_str(),
            ),
            PipelineError::MetadataDecode { identifier } => join(
                "cannot decode the metadata of post: ",
                identifier.as_str(),
            ),
            PipelineError::ContentRead { identifier } => join(
                "cannot read the content of post: ",
                identifier.as_str(),
            ),
            PipelineError::DateParse { identifier, raw } => {
                let mut text = join("cannot parse the date of post: ", identifier.as_str());
                text.append(": ");
                text.append(raw.as_str());
                text
            },
            PipelineError::Render { output } => join("cannot render the page: ", output.as_str()),
        }
    }
}

} // verus!
