use parsearch::render::split_segments;
use parsearch::render::spans_valid;

#[test]
fn segments_split_line_at_match_spans() {
    let line = b"foo bar foo".to_vec();
    let spans = vec![(0usize, 3usize), (8, 11)];
    let segs = split_segments(&line, &spans).unwrap();
    assert_eq!(segs.len(), 3);
    assert_eq!(segs[0].text, b"foo".to_vec());
    assert!(segs[0].highlighted);
    assert_eq!(segs[1].text, b" bar ".to_vec());
    assert!(!segs[1].highlighted);
    assert_eq!(segs[2].text, b"foo".to_vec());
    assert!(segs[2].highlighted);
}

#[test]
fn segments_concatenate_back_to_the_line() {
    let line = b"one two three".to_vec();
    let spans = vec![(4usize, 7usize)];
    let segs = split_segments(&line, &spans).unwrap();
    let mut joined: Vec<u8> = Vec::new();
    for s in &segs {
        joined.extend_from_slice(&s.text);
    }
    assert_eq!(joined, line);
}

#[test]
fn no_spans_yield_one_plain_segment() {
    let line = b"plain".to_vec();
    let segs = split_segments(&line, &Vec::new()).unwrap();
    assert_eq!(segs.len(), 1);
    assert_eq!(segs[0].text, b"plain".to_vec());
    assert!(!segs[0].highlighted);
}

#[test]
fn empty_line_with_no_spans_yields_no_segments() {
    let segs = split_segments(&Vec::new(), &Vec::new()).unwrap();
    assert_eq!(segs.len(), 0);
}

#[test]
fn misaligned_spans_are_rejected() {
    let line = b"short".to_vec();
    assert!(split_segments(&line, &vec![(0usize, 9usize)]).is_none());
    assert!(split_segments(&line, &vec![(3usize, 2usize)]).is_none());
    assert!(split_segments(&line, &vec![(0usize, 3usize), (2, 4)]).is_none());
    assert!(!spans_valid(5, &vec![(0usize, 3usize), (2, 4)]));
    assert!(spans_valid(5, &vec![(0usize, 2usize), (2, 4)]));
}
