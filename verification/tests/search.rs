use gredit::searcher::{file_result, search_file, Match, MatchSink, PatternMatcher, SearchError};

fn found(res: &Option<gredit::searcher::FileResult>) -> Vec<(u64, String)> {
    res.as_ref()
        .unwrap()
        .matches
        .iter()
        .map(|m| (m.line_nr, m.match_str.clone()))
        .collect()
}

#[test]
fn search_reports_matching_lines_with_numbers() {
    let res = search_file("notes.txt", "fo+", b"foo\nbar\nfoo bar\nbaz").unwrap();
    assert_eq!(res.as_ref().unwrap().file_path, "notes.txt");
    assert_eq!(
        found(&res),
        vec![(1, "foo\n".to_string()), (3, "foo bar\n".to_string())]
    );
}

#[test]
fn search_reports_last_line_without_terminator() {
    let res = search_file("f", "baz", b"foo\nbar\nbaz").unwrap();
    assert_eq!(found(&res), vec![(3, "baz".to_string())]);
}

#[test]
fn search_without_match_gives_none() {
    let res = search_file("f", "nothing", b"foo\nbar\n").unwrap();
    assert!(res.is_none());
}

#[test]
fn search_in_empty_file_gives_none() {
    let res = search_file("f", "a", b"").unwrap();
    assert!(res.is_none());
}

#[test]
fn search_with_invalid_pattern_is_refused() {
    match search_file("f", "(unclosed", b"(unclosed\n") {
        Err(e) => assert_eq!(e, SearchError::InvalidPattern),
        Ok(_) => panic!("an invalid pattern was accepted"),
    }
}

#[test]
fn search_with_non_utf8_match_is_refused() {
    match search_file("f", "ab", b"ok\nab\xff\n") {
        Err(e) => assert_eq!(e, SearchError::UnreadableMatch),
        Ok(_) => panic!("a line that is not UTF-8 was returned"),
    }
}

#[test]
fn pattern_matcher_accepts_valid_pattern() {
    assert!(PatternMatcher::new("a[bc]+d").is_ok());
    assert!(matches!(PatternMatcher::new("a[bc"), Err(SearchError::InvalidPattern)));
}

#[test]
fn sink_records_each_match_in_order() {
    let mut sink = MatchSink { matches: Vec::new() };
    assert!(sink.matched(4, "one\n"));
    assert!(sink.matched(9, "two\n"));
    assert_eq!(sink.matches.len(), 2);
    assert_eq!(sink.matches[0].line_nr, 4);
    assert_eq!(sink.matches[0].match_str, "one\n");
    assert_eq!(sink.matches[1].line_nr, 9);
    assert_eq!(sink.matches[1].match_str, "two\n");
}

#[test]
fn file_result_is_none_without_matches() {
    assert!(file_result("f", Vec::new()).is_none());
    let r = file_result("g", vec![Match { match_str: "x\n".to_string(), line_nr: 2 }]).unwrap();
    assert_eq!(r.file_path, "g");
    assert_eq!(r.matches.len(), 1);
}

#[test]
fn search_line_numbers_count_from_one_and_grow() {
    let text = b"x1\ny\nx2\nx3\n\nx4";
    let res = search_file("f", "x", text).unwrap();
    let nums: Vec<u64> = found(&res).iter().map(|(n, _)| *n).collect();
    assert_eq!(nums, vec![1, 3, 4, 6]);
}
