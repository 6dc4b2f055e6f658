use parsearch::config::extension_matches;
use parsearch::orchestrate::aggregate;
use parsearch::orchestrate::no_matches_message;
use parsearch::orchestrate::summarize;
use parsearch::orchestrate::Summary;
use parsearch::pattern::compile_pattern;
use parsearch::scan::par_scan_lines;
use parsearch::scan::scan_line;
use parsearch::scan::scan_lines;
use parsearch::scan::SearchResult;
use parsearch::SearchError;
use parsearch::{is_large_file, LARGE_FILE_THRESHOLD};

fn lines_of(ls: &[&str]) -> Vec<String> {
    ls.iter().map(|s| s.to_string()).collect()
}

#[test]
fn literal_mode_does_not_interpret_metacharacters() {
    let m = compile_pattern("a.b", false).unwrap();
    let path = "f.txt".to_string();
    let lines = lines_of(&["a.b here", "axb here", "aXb a.b"]);
    let results = scan_lines(&path, &lines, &m, true);
    assert_eq!(results.len(), 2);
    assert_eq!(results[0].line_number, 1);
    assert_eq!(results[0].matches, vec![(0, 3)]);
    assert_eq!(results[1].line_number, 3);
    assert_eq!(results[1].matches, vec![(4, 7)]);
}

#[test]
fn regex_mode_interprets_metacharacters() {
    let m = compile_pattern("a.b", true).unwrap();
    let path = "f.txt".to_string();
    let lines = lines_of(&["axb here"]);
    let results = scan_lines(&path, &lines, &m, true);
    assert_eq!(results.len(), 1);
    assert_eq!(results[0].matches, vec![(0, 3)]);
}

#[test]
fn match_count_is_non_overlapping_left_to_right() {
    let m = compile_pattern("aa", false).unwrap();
    let path = "f.txt".to_string();
    let results = scan_lines(&path, &lines_of(&["aaaa"]), &m, true);
    assert_eq!(results.len(), 1);
    assert_eq!(results[0].matches, vec![(0, 2), (2, 4)]);

    let results = scan_lines(&path, &lines_of(&["aaa"]), &m, true);
    assert_eq!(results[0].matches, vec![(0, 2)]);
}

#[test]
fn case_insensitive_matches_and_case_sensitive_does_not() {
    let m = compile_pattern("hello", false).unwrap();
    let path = "f.txt".to_string();
    let lines = lines_of(&["Hello"]);
    let insensitive = scan_lines(&path, &lines, &m, false);
    assert_eq!(insensitive.len(), 1);
    assert_eq!(insensitive[0].matches, vec![(0, 5)]);
    assert_eq!(insensitive[0].line, "Hello");
    let sensitive = scan_lines(&path, &lines, &m, true);
    assert_eq!(sensitive.len(), 0);
}

#[test]
fn file_size_threshold_boundary() {
    assert!(!is_large_file(LARGE_FILE_THRESHOLD));
    assert!(!is_large_file(10_000_000));
    assert!(is_large_file(10_000_001));
    assert!(is_large_file(LARGE_FILE_THRESHOLD + 1));
}

fn assert_same_results(a: &[SearchResult], b: &[SearchResult]) {
    assert_eq!(a.len(), b.len());
    for (x, y) in a.iter().zip(b.iter()) {
        assert_eq!(x.file_path, y.file_path);
        assert_eq!(x.line_number, y.line_number);
        assert_eq!(x.line, y.line);
        assert_eq!(x.matches, y.matches);
    }
}

#[test]
fn both_strategies_report_identical_results() {
    let m = compile_pattern("foo", false).unwrap();
    let path = "big.txt".to_string();
    let lines = lines_of(&["foo bar", "nothing", "FOO baz", "xfoofoox", "foo"]);
    let sequential = scan_lines(&path, &lines, &m, false);
    let parallel = par_scan_lines(&path, &lines, &m, false);
    assert_same_results(&sequential, &parallel);
    let sequential_cs = scan_lines(&path, &lines, &m, true);
    let parallel_cs = par_scan_lines(&path, &lines, &m, true);
    assert_same_results(&sequential_cs, &parallel_cs);
}

#[test]
fn repeated_search_is_idempotent() {
    let m = compile_pattern("foo", false).unwrap();
    let path = "a.txt".to_string();
    let lines = lines_of(&["foo bar", "FOO baz", "none"]);
    let first = scan_lines(&path, &lines, &m, false);
    let second = scan_lines(&path, &lines, &m, false);
    assert_same_results(&first, &second);
}

#[test]
fn scenario_two_lines_case_insensitive_literal() {
    let m = compile_pattern("foo", false).unwrap();
    let path = "a.txt".to_string();
    let lines = lines_of(&["foo bar", "FOO baz"]);
    let results = scan_lines(&path, &lines, &m, false);
    assert_eq!(results.len(), 2);
    assert_eq!(results[0].line_number, 1);
    assert_eq!(results[0].line, "foo bar");
    assert_eq!(results[0].matches, vec![(0, 3)]);
    assert_eq!(results[1].line_number, 2);
    assert_eq!(results[1].line, "FOO baz");
    assert_eq!(results[1].matches, vec![(0, 3)]);
}

#[test]
fn empty_directory_reports_no_matches() {
    let outcomes: Vec<Option<Vec<SearchResult>>> = Vec::new();
    let results = aggregate(&outcomes);
    assert_eq!(results.len(), 0);
    assert_eq!(summarize(results.len()), Summary::NoMatches);
    assert_eq!(no_matches_message(), "No matches found.");
}

#[test]
fn summary_counts_matches() {
    assert_eq!(summarize(3), Summary::Found(3));
    assert_ne!(summarize(1), Summary::NoMatches);
}

#[test]
fn extension_filter_selects_exactly() {
    assert!(extension_matches(&Some("txt".to_string()), &Some("txt".to_string())));
    assert!(!extension_matches(&Some("txt".to_string()), &Some("md".to_string())));
    assert!(!extension_matches(&Some("txt".to_string()), &Some("TXT".to_string())));
    assert!(!extension_matches(&Some("txt".to_string()), &None));
    assert!(extension_matches(&None, &Some("md".to_string())));
    assert!(extension_matches(&None, &None));
}

#[test]
fn malformed_regex_is_invalid_pattern() {
    let r = compile_pattern("[", true);
    assert!(matches!(r, Err(SearchError::InvalidPattern)));
    assert_eq!(SearchError::InvalidPattern.message(), "invalid regex pattern");
    assert_eq!(SearchError::EnumerationFailure.message(), "could not list a directory");
}

#[test]
fn malformed_regex_as_literal_compiles_and_matches_itself() {
    let m = compile_pattern("[", false).unwrap();
    let path = "f.txt".to_string();
    let results = scan_lines(&path, &lines_of(&["a[b"]), &m, true);
    assert_eq!(results.len(), 1);
    assert_eq!(results[0].matches, vec![(1, 2)]);
}

#[test]
fn scan_failures_are_absorbed_per_file() {
    let m = compile_pattern("foo", false).unwrap();
    let good = scan_lines(&"a.txt".to_string(), &lines_of(&["foo"]), &m, false);
    let outcomes = vec![Some(good), None, Some(Vec::new())];
    let results = aggregate(&outcomes);
    assert_eq!(results.len(), 1);
    assert_eq!(results[0].file_path, "a.txt");
    assert_eq!(results[0].line_number, 1);
}

#[test]
fn scan_line_reports_original_text_with_folded_offsets() {
    let m = compile_pattern("abc", false).unwrap();
    let path = "f.txt".to_string();
    let line = "xxABCxx".to_string();
    let r = scan_line(&path, 4, &line, &m, false).unwrap();
    assert_eq!(r.line_number, 5);
    assert_eq!(r.line, "xxABCxx");
    assert_eq!(r.matches, vec![(2, 5)]);
    assert!(scan_line(&path, 4, &line, &m, true).is_none());
}
