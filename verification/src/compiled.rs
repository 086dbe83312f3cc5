use vstd::prelude::*;

use grep::regex::RegexMatcher;
use grep::searcher::sinks::UTF8;
use grep::searcher::Searcher;

use crate::searcher::{grep_lines, lines_ascending, pattern_compiles, Match, MatchSink};

verus! {

/// A regular expression compiled by grep, with the text that it was compiled
/// from. Its fields are private to this module, where only
/// `compile_pattern` builds one, so the text is always the one that the
/// matcher was compiled from.
pub struct CompiledPattern {
    source: String,
    matcher: RegexMatcher,
}

impl CompiledPattern {
    /// The text that the matcher was compiled from.
    pub closed spec fn source(&self) -> Seq<char> {
        self.source@
    }
}

/// `RegexMatcher::new` of grep-regex: builds a matcher with the default
/// configuration from `pattern`, kept together with `pattern`. It fails
/// exactly on the patterns that are not valid, which `pattern_compiles`
/// names.
#[verifier::external_body]
pub(crate) fn compile_pattern(pattern: &str) -> (res: Result<CompiledPattern, grep::regex::Error>)
    ensures
        res is Ok <==> pattern_compiles(pattern@),
        res matches Ok(c) ==> c.source() == pattern@,
{
    RegexMatcher::new(pattern).map(|matcher| CompiledPattern { source: pattern.to_owned(), matcher })
}

/// `Searcher::search_slice` of grep-searcher, with a default `Searcher` and a
/// `UTF8` sink that hands each matching line to `MatchSink::matched`. What it
/// finds is named by `grep_lines`, applied to the text that the matcher was
/// compiled from; the sink fails where a matching line is not UTF-8. The
/// searcher counts lines from 1 and reports the matching lines as it moves
/// forward through the haystack, so their numbers grow strictly.
#[verifier::external_body]
pub(crate) fn search_slice(c: &CompiledPattern, haystack: &[u8]) -> (res: Result<
    Vec<Match>,
    std::io::Error,
>)
    ensures
        match res {
            Ok(found) => grep_lines(c.source(), haystack@) == Some(found.deep_view()),
            Err(_) => grep_lines(c.source(), haystack@) is None,
        },
        res matches Ok(found) ==> lines_ascending(found.deep_view()),
{
    let mut sink = MatchSink { matches: Vec::new() };
    let outcome = Searcher::new().search_slice(
        &c.matcher,
        haystack,
        UTF8(|line_nr, line| Ok(sink.matched(line_nr, line))),
    );
    outcome.map(|()| sink.matches)
}

} // verus!
