use vstd::prelude::*;

use grep::regex::RegexMatcher;

use crate::compiled::{compile_pattern, search_slice, CompiledPattern};

verus! {

/// One matching line: its text, with its line terminator, and its number,
/// counted from 1.
pub struct Match {
    pub match_str: String,
    pub line_nr: u64,
}

/// The matches found in one file, in the order of their lines.
pub struct FileResult {
    pub file_path: String,
    pub matches: Vec<Match>,
}

impl DeepView for Match {
    type V = (u64, Seq<char>);

    open spec fn deep_view(&self) -> (u64, Seq<char>) {
        (self.line_nr, self.match_str@)
    }
}

impl DeepView for FileResult {
    type V = (Seq<char>, Seq<(u64, Seq<char>)>);

    open spec fn deep_view(&self) -> (Seq<char>, Seq<(u64, Seq<char>)>) {
        (self.file_path@, self.matches.deep_view())
    }
}

/// Why a search did not give a result.
#[derive(Debug, Clone, Copy, PartialEq, Eq, Structural)]
pub enum SearchError {
    /// The pattern is not a valid regular expression.
    InvalidPattern,
    /// A matching line is not valid UTF-8.
    UnreadableMatch,
}

#[verifier::external_type_specification]
#[verifier::external_body]
pub struct ExRegexMatcher(RegexMatcher);

#[verifier::external_type_specification]
#[verifier::external_body]
pub struct ExRegexError(grep::regex::Error);

#[verifier::external_type_specification]
#[verifier::external_body]
pub struct ExIoError(std::io::Error);

/// Whether `pattern` is a regular expression that the matcher accepts.
pub uninterp spec fn pattern_compiles(pattern: Seq<char>) -> bool;

/// The lines of `haystack` that match `pattern`, as pairs of line number and
/// line text; `None` where a matching line is not valid UTF-8.
pub uninterp spec fn grep_lines(pattern: Seq<char>, haystack: Seq<u8>) -> Option<
    Seq<(u64, Seq<char>)>,
>;

/// Line numbers count from 1 and grow strictly from one match to the next.
pub open spec fn lines_ascending(found: Seq<(u64, Seq<char>)>) -> bool {
    &&& forall|i: int| 0 <= i < found.len() ==> (#[trigger] found[i]).0 >= 1
    &&& forall|i: int, j: int| 0 <= i < j < found.len() ==> (#[trigger] found[i]).0 < (
    #[trigger] found[j]).0
}

/// The result of a search in a file, if the file has any match.
pub open spec fn result_for(file_path: Seq<char>, found: Seq<(u64, Seq<char>)>) -> Option<
    (Seq<char>, Seq<(u64, Seq<char>)>),
> {
    if found.len() > 0 {
        Some((file_path, found))
    } else {
        None
    }
}

/// A compiled pattern together with the text that it was compiled from.
pub struct PatternMatcher {
    compiled: CompiledPattern,
}

impl PatternMatcher {
    /// The pattern that this matcher was compiled from.
    pub closed spec fn pattern(&self) -> Seq<char> {
        self.compiled.source()
    }

    /// Compiles `pattern`.
    pub fn new(pattern: &str) -> (res: Result<PatternMatcher, SearchError>)
        ensures
            match res {
                Ok(m) => pattern_compiles(pattern@) && m.pattern() == pattern@,
                Err(e) => !pattern_compiles(pattern@) && e == SearchError::InvalidPattern,
            },
    {
        match compile_pattern(pattern) {
            Ok(compiled) => Ok(PatternMatcher { compiled }),
            Err(_) => Err(SearchError::InvalidPattern),
        }
    }
}

/// Collects the lines that a search reports.
pub struct MatchSink {
    pub matches: Vec<Match>,
}

impl MatchSink {
    /// Records the matching line `line` with number `line_nr`; the search
    /// goes on afterwards.
    pub fn matched(&mut self, line_nr: u64, line: &str) -> (keep_going: bool)
        ensures
            final(self).matches.deep_view() == old(self).matches.deep_view().push(
                (line_nr, line@),
            ),
            keep_going,
    {
        let ghost before = self.matches.deep_view();
        self.matches.push(Match { match_str: line.to_owned(), line_nr });
        proof {
            assert(self.matches.deep_view() =~= before.push((line_nr, line@)));
        }
        true
    }
}

/// The result of a search in `file_path`: `None` when nothing matched.
pub fn file_result(file_path: &str, matches: Vec<Match>) -> (res: Option<FileResult>)
    ensures
        res.deep_view() == result_for(file_path@, matches.deep_view()),
{
    if matches.len() > 0 {
        Some(FileResult { file_path: file_path.to_owned(), matches })
    } else {
        None
    }
}

/// Searches `contents`, the contents of the file `file_path`, for the lines
/// that match `pattern`.
pub fn search_file(file_path: &str, pattern: &str, contents: &[u8]) -> (res: Result<
    Option<FileResult>,
    SearchError,
>)
    ensures
        !pattern_compiles(pattern@) ==> res == Err::<Option<FileResult>, SearchError>(
            SearchError::InvalidPattern,
        ),
        pattern_compiles(pattern@) ==> match grep_lines(pattern@, contents@) {
            None => res == Err::<Option<FileResult>, SearchError>(SearchError::UnreadableMatch),
            Some(found) => res matches Ok(r) && r.deep_view() == result_for(file_path@, found),
        },
        res matches Ok(Some(r)) ==> lines_ascending(r.matches.deep_view()),
{
    let m = match PatternMatcher::new(pattern) {
        Ok(m) => m,
        Err(e) => return Err(e),
    };
    match search_slice(&m.compiled, contents) {
        Ok(found) => Ok(file_result(file_path, found)),
        Err(_) => Err(SearchError::UnreadableMatch),
    }
}

} // verus!
