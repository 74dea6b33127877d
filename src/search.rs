//! The shape of a search over the wiki's markdown files: for each file that
//! matched, the lines around each match, with the matching parts marked.
use vstd::prelude::*;

verus! {

/// The outcome of one search.
pub struct SearchResult {
    pub pattern: String,
    pub matches: Vec<SearchFileMatch>,
    /// How long the search took, in milliseconds.
    pub elapsed: i64,
}

/// The matches in one file.
pub struct SearchFileMatch {
    pub file_name: String,
    pub file_path: String,
    pub url: String,
    pub contexts: Vec<SearchFileMatchContext>,
}

/// A run of neighbouring lines around one or more matches, with its HTML.
pub struct SearchFileMatchContext {
    pub contexts: Vec<SearchMatchContext>,
    pub html: String,
}

/// One line of a file, cut into plain and matching parts.
pub struct SearchMatchContext {
    pub line_number: i32,
    pub lines: Vec<SearchMatchText>,
}

/// A part of a line.
pub enum SearchMatchText {
    Text(String),
    Match(String),
}

} // verus!
