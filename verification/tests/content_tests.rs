use parsearch::pattern::compile_pattern;
use parsearch::scan::scan_content;
use parsearch::scan::scan_lines;
use parsearch::scan::split_lines;

fn split(s: &str) -> Vec<Vec<u8>> {
    split_lines(&s.as_bytes().to_vec())
}

#[test]
fn lines_split_at_newlines() {
    assert_eq!(split("a\nb"), vec![b"a".to_vec(), b"b".to_vec()]);
    assert_eq!(split("a\nb\n"), vec![b"a".to_vec(), b"b".to_vec()]);
    assert_eq!(split(""), Vec::<Vec<u8>>::new());
    assert_eq!(split("\n"), vec![b"".to_vec()]);
    assert_eq!(split("a\n\nb"), vec![b"a".to_vec(), b"".to_vec(), b"b".to_vec()]);
}

#[test]
fn carriage_returns_stripped_only_before_newlines() {
    assert_eq!(split("a\r\nb\r\n"), vec![b"a".to_vec(), b"b".to_vec()]);
    assert_eq!(split("a\rb"), vec![b"a\rb".to_vec()]);
    assert_eq!(split("a\r"), vec![b"a\r".to_vec()]);
    assert_eq!(split("a\r\r\n"), vec![b"a\r".to_vec()]);
}

#[test]
fn split_agrees_with_std_lines() {
    for s in ["a\nb\nc", "x\r\ny\n", "", "one", "\n\n", "tail\r"] {
        let ours = split(s);
        let std_lines: Vec<Vec<u8>> = s.lines().map(|l| l.as_bytes().to_vec()).collect();
        assert_eq!(ours, std_lines);
    }
}

#[test]
fn content_scan_matches_line_scan() {
    let m = compile_pattern("foo", false).unwrap();
    let path = "big.txt".to_string();
    let content = b"foo bar\nFOO baz\nnone here\n".to_vec();
    let by_content = scan_content(&path, &content, &m, false);
    let lines = vec!["foo bar".to_string(), "FOO baz".to_string(), "none here".to_string()];
    let by_lines = scan_lines(&path, &lines, &m, false);
    assert_eq!(by_content.len(), 2);
    assert_eq!(by_content.len(), by_lines.len());
    for (a, b) in by_content.iter().zip(by_lines.iter()) {
        assert_eq!(a.line_number, b.line_number);
        assert_eq!(a.line, b.line);
        assert_eq!(a.matches, b.matches);
    }
    assert_eq!(by_content[1].line, "FOO baz");
    assert_eq!(by_content[1].matches, vec![(0, 3)]);
}

#[test]
fn content_scan_replaces_invalid_utf8_without_failing() {
    let m = compile_pattern("foo", false).unwrap();
    let path = "big.bin".to_string();
    let mut content = Vec::new();
    content.extend_from_slice(b"foo ");
    content.push(0xFF);
    content.extend_from_slice(b"\nbar foo\n");
    let results = scan_content(&path, &content, &m, false);
    assert_eq!(results.len(), 2);
    assert_eq!(results[0].line_number, 1);
    assert_eq!(results[0].matches, vec![(0, 3)]);
    assert_eq!(results[1].line_number, 2);
    assert_eq!(results[1].matches, vec![(4, 7)]);
}
