//! Plain content data the rest of the server hands around: the metadata a
//! rendered article page is built from, and a string that is either owned
//! or borrowed from the binary.

use vstd::prelude::*;

verus! {

/// What an article listing shows of one article; the storage and the cache
/// that produce it live outside the library.
#[derive(Clone, Debug)]
pub struct ArticleMetadata {
    /// Title, when the article has one.
    pub title: Option<String>,
    /// Leading excerpt, when one was extracted.
    pub excerpt: Option<String>,
    /// Creation time, already formatted for display.
    pub created: String,
    /// Last update time, already formatted, when the article was updated.
    pub updated: Option<String>,
    /// Site-relative address of the article page.
    pub url: String,
    /// Year of creation, for grouping in the archive.
    pub year: u64,
}

/// A piece of site text: owned when it came from configuration or storage,
/// static when it is a built-in default.
#[derive(Clone, Debug)]
pub enum Str {
    /// Text owned by the value.
    Owned(String),
    /// Text borrowed from the binary.
    Static(&'static str),
}

impl View for Str {
    type V = Seq<char>;

    closed spec fn view(&self) -> Seq<char> {
        match self {
            Str::Owned(s) => s@,
            Str::Static(s) => s@,
        }
    }
}

impl Str {
    /// The text itself, whichever way it is held.
    pub fn as_str(&self) -> (s: &str)
        ensures
            s@ == self@,
    {
        match self {
            Str::Owned(s) => s.as_str(),
            Str::Static(s) => s,
        }
    }
}

} // verus!
