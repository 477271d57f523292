//! Discovery of posts in the post-data directory: which directory entries are
//! metadata files, the identifiers they give, and where the files of a post
//! are found.

use crate::text::{join, str_eq};
use vstd::prelude::*;

verus! {

/// The directory that holds one metadata file and one body file per post.
pub const POSTS_DIRECTORY: &'static str = "data/posts";

/// The extension that marks a directory entry as a metadata file.
pub const METADATA_EXTENSION: &'static str = "toml";

/// The folder of the metadata files, relative to the data directory.
pub const METADATA_FOLDER: &'static str = "posts/";

/// What precedes the identifier in the path of a body file.
pub const CONTENT_PREFIX: &'static str = "data/posts/";

/// What follows the identifier in the path of a body file.
pub const CONTENT_SUFFIX: &'static str = ".md";

/// One entry of a directory listing, split at the last dot of its name.
#[derive(Clone, Debug, PartialEq, Eq)]
pub struct FileEntry {
    /// The file name without its extension.
    pub stem: String,
    /// The extension, without the dot, where the name has one.
    pub extension: Option<String>,
}

/// What a `FileEntry` holds, as sequences of characters.
#[verifier::ext_equal]
pub struct EntryModel {
    pub stem: Seq<char>,
    pub extension: Option<Seq<char>>,
}

impl EntryModel {
    /// The entry is a metadata file.
    pub open spec fn is_metadata(self) -> bool {
        self.extension == Some(METADATA_EXTENSION@)
    }
}

impl View for FileEntry {
    type V = EntryModel;

    open spec fn view(&self) -> EntryModel {
        EntryModel {
            stem: self.stem@,
            extension: match self.extension {
                Some(extension) => Some(extension@),
                None => None,
            },
        }
    }
}

impl DeepView for FileEntry {
    type V = EntryModel;

    open spec fn deep_view(&self) -> EntryModel {
        self@
    }
}

impl FileEntry {
    /// Whether the entry is a metadata file.
    pub fn is_metadata(&self) -> (marked: bool)
        ensures
            marked == self@.is_metadata(),
    {
        match &self.extension {
            Some(extension) => str_eq(extension.as_str(), METADATA_EXTENSION),
            None => false,
        }
    }
}

/// The post identifiers that a directory listing gives: the stems of its
/// metadata files, in the order of the listing.
pub open spec fn post_names(entries: Seq<EntryModel>) -> Seq<Seq<char>> {
    entries.filter(|entry: EntryModel| entry.is_metadata()).map_values(
        |entry: EntryModel| entry.stem,
    )
}

/// No two entries of the listing are the same: a directory holds each file
/// name once.
pub open spec fn distinct_entries(entries: Seq<EntryModel>) -> bool {
    forall|i: int, j: int| 0 <= i < j < entries.len() ==> entries[i] != entries[j]
}

/// No identifier occurs twice.
pub open spec fn distinct_names(names: Seq<Seq<char>>) -> bool {
    forall|i: int, j: int| 0 <= i < j < names.len() ==> names[i] != names[j]
}

/// One more entry at the end of a listing adds its stem to the identifiers if
/// it is a metadata file, and nothing otherwise.
pub proof fn lemma_post_names_push(entries: Seq<EntryModel>, entry: EntryModel)
    ensures
        post_names(entries.push(entry)) == if entry.is_metadata() {
            post_names(entries).push(entry.stem)
        } else {
            post_names(entries)
        },
{
    reveal(Seq::filter);
    assert(entries.push(entry).drop_last() =~= entries);
}

/// Every identifier is the stem of a metadata file of the listing.
pub proof fn lemma_names_come_from_metadata(entries: Seq<EntryModel>, k: int)
    requires
        0 <= k < post_names(entries).len(),
    ensures
        exists|i: int|
            0 <= i < entries.len() && (#[trigger] entries[i]).is_metadata() && entries[i].stem
                == post_names(entries)[k],
    decreases entries.len(),
{
    if entries.len() == 0 {
        reveal(Seq::filter);
    } else {
        let front = entries.drop_last();
        let last = entries.last();
        assert(front.push(last) =~= entries);
        lemma_post_names_push(front, last);
        if k < post_names(front).len() {
            lemma_names_come_from_metadata(front, k);
        }
    }
}

/// A file whose extension is not the metadata extension is never treated as a
/// post: the identifiers are those of the listing without it.
pub proof fn lemma_other_extensions_ignored(
    before: Seq<EntryModel>,
    stray: EntryModel,
    after: Seq<EntryModel>,
)
    requires
        !stray.is_metadata(),
    ensures
        post_names(before + seq![stray] + after) == post_names(before + after),
{
    let marked = |entry: EntryModel| entry.is_metadata();
    Seq::filter_distributes_over_add(before + seq![stray], after, marked);
    Seq::filter_distributes_over_add(before, seq![stray], marked);
    Seq::filter_distributes_over_add(before, after, marked);
    assert(seq![stray].filter(marked) =~= Seq::<EntryModel>::empty()) by {
        reveal(Seq::filter);
        assert(seq![stray].drop_last().filter(marked) =~= Seq::<EntryModel>::empty());
    }
}

/// A listing without repeated entries gives no identifier twice.
pub proof fn lemma_names_distinct(entries: Seq<EntryModel>)
    requires
        distinct_entries(entries),
    ensures
        distinct_names(post_names(entries)),
    decreases entries.len(),
{
    if entries.len() == 0 {
        reveal(Seq::filter);
    } else {
        let front = entries.drop_last();
        let last = entries.last();
        assert(front.push(last) =~= entries);
        lemma_post_names_push(front, last);
        lemma_names_distinct(front);
        if last.is_metadata() {
            let names = post_names(front);
            assert forall|k: int| 0 <= k < names.len() implies names[k] != last.stem by {
                lemma_names_come_from_metadata(front, k);
            }
        }
    }
}

/// Selects the metadata files of a directory listing and gives the identifier
/// of each: its name without the extension. Entries with any other extension,
/// or with none, are passed over.
pub fn get_posts_names(entries: &Vec<FileEntry>) -> (names: Vec<String>)
    ensures
        names.deep_view() == post_names(entries.deep_view()),
{
    let mut names: Vec<String> = Vec::new();
    let mut i: usize = 0;
    proof {
        reveal(Seq::filter);
    }
    while i < entries.len()
        invariant
            i <= entries.len(),
            names.deep_view() == post_names(entries.deep_view().take(i as int)),
        decreases entries.len() - i,
    {
        let entry = &entries[i];
        let ghost seen = entries.deep_view().take(i as int);
        proof {
            lemma_post_names_push(seen, entry@);
            assert(seen.push(entry@) =~= entries.deep_view().take(i + 1));
        }
        if entry.is_metadata() {
            names.push(entry.stem.clone());
        }
        i += 1;
    }
    assert(entries.deep_view().take(i as int) =~= entries.deep_view());
    names
}

/// The name under which the metadata of a post is loaded: the metadata folder
/// followed by the identifier.
pub open spec fn metadata_key_of(identifier: Seq<char>) -> Seq<char> {
    METADATA_FOLDER@ + identifier
}

/// The path of the body file of a post.
pub open spec fn content_path_of(identifier: Seq<char>) -> Seq<char> {
    CONTENT_PREFIX@ + identifier + CONTENT_SUFFIX@
}

/// The name under which the metadata of a post is loaded.
pub fn metadata_key(identifier: &str) -> (key: String)
    ensures
        key@ == metadata_key_of(identifier@),
{
    join(METADATA_FOLDER, identifier)
}

/// The path of the body file of a post.
pub fn content_path(identifier: &str) -> (path: String)
    ensures
        path@ == content_path_of(identifier@),
{
    let mut path = join(CONTENT_PREFIX, identifier);
    path.append(CONTENT_SUFFIX);
    path
}

} // verus!
