//! A small line-matching library: patterns are compiled into matchers,
//! lines of a file are evaluated against them, and the lines that satisfy
//! the match policy (case folding, word or line anchoring, inversion) are
//! returned in file order.
use vstd::prelude::*;

pub mod laws;
pub mod lines;
pub mod pattern;
pub mod rx;
pub mod search;

verus! {

/// The character sequences of a sequence of strings, in order.
pub open spec fn views_of(v: Seq<String>) -> Seq<Seq<char>> {
    v.map_values(|s: String| s@)
}

/// The run-time configuration: the primary pattern, extra patterns,
/// pattern-file paths, the files to search, and the four matching toggles.
pub struct Args {
    /// Pattern to search against.
    pub pattern: String,
    /// Files to search.
    pub files: Vec<String>,
    /// Additional pattern strings, unioned with the primary pattern.
    pub patterns: Vec<String>,
    /// Files whose lines each contribute one more pattern.
    pub pat_file: Vec<String>,
    /// Fold patterns and input lines to lower case before matching.
    pub ignore_case: bool,
    /// Select the lines that do not match.
    pub invert_match: bool,
    /// Only accept matches bounded by word boundaries.
    pub word_regexp: bool,
    /// Only accept matches spanning the entire line.
    pub line_regexp: bool,
}

} // verus!
