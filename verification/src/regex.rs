//! Regular expressions over lines of text: compiling a pattern, testing one
//! line, and finding the matching lines of a file's content.
//!
//! The regular-expression engine and the line-oriented searcher are those of
//! the `grep-regex`, `grep-matcher` and `grep-searcher` crates. What they
//! compute is named here, not defined: the contracts of this module say which
//! pattern and which bytes a result belongs to, and the rest of the library
//! is proved against those names.

use vstd::prelude::*;
use grep_matcher::Matcher;
use grep_regex::RegexMatcher;
use grep_searcher::sinks::UTF8;
use grep_searcher::{BinaryDetection, SearcherBuilder};

verus! {

#[verifier::external_type_specification]
#[verifier::external_body]
pub struct ExRegexMatcher(grep_regex::RegexMatcher);

#[verifier::external_type_specification]
#[verifier::external_body]
pub struct ExRegexError(grep_regex::Error);

/// The pattern that a compiled matcher was built from.
pub uninterp spec fn matcher_pattern(m: RegexMatcher) -> Seq<char>;

/// Whether `pattern` is accepted by `RegexMatcher::new`.
pub uninterp spec fn regex_compiles(pattern: Seq<char>) -> bool;

/// Whether the regular expression `pattern` matches somewhere in `haystack`.
pub uninterp spec fn regex_matches(pattern: Seq<char>, haystack: Seq<u8>) -> bool;

/// One line that a search reported: its number, counted from 1, and its
/// text as the searcher handed it out.
#[derive(Debug)]
pub struct LineHit {
    pub number: u64,
    pub text: String,
}

/// A reported line as plain values.
pub struct LineHitView {
    pub number: u64,
    pub text: Seq<char>,
}

impl View for LineHit {
    type V = LineHitView;

    open spec fn view(&self) -> LineHitView {
        LineHitView { number: self.number, text: self.text@ }
    }
}

/// The lines of `content` that a line-by-line search for `pattern` reports,
/// in the order in which it reports them.
pub uninterp spec fn search_hits(pattern: Seq<char>, content: Seq<u8>) -> Seq<LineHitView>;

/// The views of a vector of reported lines.
pub open spec fn hits_view(hits: Seq<LineHit>) -> Seq<LineHitView> {
    hits.map_values(|h: LineHit| h@)
}

/// Calls `RegexMatcher::new`. Whether compilation succeeds depends on the
/// pattern alone; on success the matcher is one for exactly that pattern.
#[verifier::external_body]
pub(crate) fn compile_regex(pattern: &str) -> (r: Result<RegexMatcher, grep_regex::Error>)
    ensures
        r.is_ok() == regex_compiles(pattern@),
        r matches Ok(m) ==> matcher_pattern(m) == pattern@,
{
    RegexMatcher::new(pattern)
}

/// Calls `Matcher::is_match` on a compiled matcher. The matcher's error
/// type has no values, so the call always answers, and the answer depends
/// on the matcher's pattern and the bytes alone.
#[verifier::external_body]
pub(crate) fn matcher_is_match(m: &RegexMatcher, haystack: &[u8]) -> (r: bool)
    ensures
        r == regex_matches(matcher_pattern(*m), haystack@),
{
    m.is_match(haystack).unwrap_or(false)
}

/// Runs a `grep_searcher::Searcher` over `content` with `Searcher::search_reader`,
/// with line numbers on and with the search ending at the first NUL byte it
/// meets, and collects the lines handed to a `UTF8` sink. An error that
/// ends the search early is dropped; the lines reported before it stay.
/// The lines depend on the matcher's pattern and the bytes alone.
#[verifier::external_body]
pub(crate) fn search_lines(m: &RegexMatcher, content: &[u8]) -> (hits: Vec<LineHit>)
    ensures
        hits_view(hits@) == search_hits(matcher_pattern(*m), content@),
{
    let mut hits: Vec<LineHit> = Vec::new();
    let _ = SearcherBuilder::new()
        .binary_detection(BinaryDetection::quit(b'\x00'))
        .line_number(true)
        .build()
        .search_reader(m, content, UTF8(|number, line| {
            hits.push(LineHit { number, text: line.to_string() });
            Ok(true)
        }));
    hits
}

/// The text of a `grep_regex::Error`, as its `Display` writes it.
#[verifier::external_body]
pub(crate) fn regex_error_text(e: &grep_regex::Error) -> (text: String) {
    e.to_string()
}

} // verus!
