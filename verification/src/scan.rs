use vstd::prelude::*;

use rayon::iter::IndexedParallelIterator;
use rayon::iter::IntoParallelRefIterator;
use rayon::iter::ParallelIterator;

verus! {

use vstd::utf8::decode_utf8;
use vstd::utf8::encode_utf8;
use vstd::utf8::is_ascii_chars;
use vstd::utf8::is_ascii_chars_encode_utf8;
use vstd::utf8::valid_utf8;
use crate::pattern::Matcher;
use crate::pattern::lemma_lit_spans_are_occurrences;
use crate::pattern::lit_matches;
use crate::pattern::regex_matches;
use crate::pattern::spans_are_occurrences;
use crate::pattern::spans_to_ints;
use crate::pattern::spans_wf;

/// What `str::to_lowercase` returns for the given characters: the result
/// depends on the characters alone.
pub uninterp spec fn lower_of(s: Seq<char>) -> Seq<char>;

/// ASCII lowercasing of one character: 'A' to 'Z' move to 'a' to 'z', every
/// other character is unchanged.
pub open spec fn ascii_lower_char(c: char) -> char {
    if 'A' <= c && c <= 'Z' {
        ((c as u8) + 32) as char
    } else {
        c
    }
}

/// Character-wise ASCII lowercasing of a text.
pub open spec fn ascii_lower(s: Seq<char>) -> Seq<char> {
    s.map_values(|c: char| ascii_lower_char(c))
}

/// Relies on `str::to_lowercase`: the result is a function of the input
/// characters alone, and on ASCII text it lowercases exactly the letters
/// 'A' to 'Z', character by character.
#[verifier::external_body]
fn to_lower(s: &str) -> (r: String)
    ensures
        r@ == lower_of(s@),
        is_ascii_chars(s@) ==> r@ == ascii_lower(s@),
{
    s.to_lowercase()
}

/// One matching line: the file it came from, its 1-based line number, its
/// original (never case-folded) text, and the byte-offset spans of every
/// match, computed against the searched (possibly case-folded) copy.
#[derive(Debug)]
pub struct SearchResult {
    pub file_path: String,
    pub line_number: usize,
    pub line: String,
    pub matches: Vec<(usize, usize)>,
}

/// The mathematical content of a `SearchResult`.
#[verifier::ext_equal]
pub ghost struct ResultView {
    pub file_path: Seq<char>,
    pub line_number: int,
    pub line: Seq<char>,
    pub spans: Seq<(int, int)>,
}

impl View for SearchResult {
    type V = ResultView;

    open spec fn view(&self) -> ResultView {
        ResultView {
            file_path: self.file_path@,
            line_number: self.line_number as int,
            line: self.line@,
            spans: spans_to_ints(self.matches@),
        }
    }
}

impl DeepView for SearchResult {
    type V = ResultView;

    open spec fn deep_view(&self) -> ResultView {
        self@
    }
}

fn copy_spans(v: &Vec<(usize, usize)>) -> (r: Vec<(usize, usize)>)
    ensures
        r@ == v@,
{
    let mut r: Vec<(usize, usize)> = Vec::new();
    let mut i: usize = 0;
    while i < v.len()
        invariant
            i <= v.len(),
            r@ == v@.take(i as int),
        decreases v.len() - i,
    {
        r.push(v[i]);
        proof {
            assert(v@.take(i + 1 as int) =~= v@.take(i as int).push(v@[i as int]));
        }
        i += 1;
    }
    proof {
        assert(v@.take(v@.len() as int) =~= v@);
    }
    r
}

impl Clone for SearchResult {
    fn clone(&self) -> (r: Self)
        ensures
            r@ == self@,
    {
        SearchResult {
            file_path: self.file_path.clone(),
            line_number: self.line_number,
            line: self.line.clone(),
            matches: copy_spans(&self.matches),
        }
    }
}

/// The text a line is matched against: the line itself when case-sensitive,
/// its lower-cased copy otherwise.
pub open spec fn searched_text(line: Seq<char>, case_sensitive: bool) -> Seq<char> {
    if case_sensitive {
        line
    } else {
        lower_of(line)
    }
}

/// The match spans of one line under the given pattern and case mode.
pub open spec fn line_spans(pattern: Seq<char>, line: Seq<char>, case_sensitive: bool) -> Seq<
    (int, int),
> {
    regex_matches(pattern, searched_text(line, case_sensitive))
}

/// What scanning one line yields: a result carrying the original line and
/// the spans found in the searched text, or nothing when no match exists.
pub open spec fn line_result(
    path: Seq<char>,
    line_number: int,
    line: Seq<char>,
    pattern: Seq<char>,
    case_sensitive: bool,
) -> Option<ResultView> {
    let spans = line_spans(pattern, line, case_sensitive);
    if spans.len() == 0 {
        None
    } else {
        Some(
            ResultView {
                file_path: path,
                line_number: line_number,
                line: line,
                spans: spans,
            },
        )
    }
}

/// A present line result as a one-element sequence, an absent one as empty.
pub open spec fn opt_seq(o: Option<ResultView>) -> Seq<ResultView> {
    match o {
        Some(r) => seq![r],
        None => Seq::empty(),
    }
}

/// What scanning a whole file yields: every matching line's result, in
/// ascending line-number order, lines numbered from 1.
pub open spec fn spec_scan(
    path: Seq<char>,
    lines: Seq<Seq<char>>,
    pattern: Seq<char>,
    case_sensitive: bool,
) -> Seq<ResultView>
    decreases lines.len(),
{
    if lines.len() == 0 {
        Seq::empty()
    } else {
        spec_scan(path, lines.drop_last(), pattern, case_sensitive) + opt_seq(
            line_result(path, lines.len() as int, lines.last(), pattern, case_sensitive),
        )
    }
}

/// The views of a sequence of results.
pub open spec fn results_view(s: Seq<SearchResult>) -> Seq<ResultView> {
    s.map_values(|r: SearchResult| r@)
}

/// Scan one line, numbered `index + 1`: match against the original text when
/// case-sensitive, against its lower-cased copy otherwise, and report the
/// spans with the original text. The spans are always valid for the searched
/// copy; when case-sensitive, or when the line is ASCII, they are also valid
/// byte ranges of the original line.
pub fn scan_line(
    path: &String,
    index: usize,
    line: &String,
    m: &Matcher,
    case_sensitive: bool,
) -> (r: Option<SearchResult>)
    requires
        index < usize::MAX,
    ensures
        (match r {
            Some(sr) => Some(sr@),
            None => None::<ResultView>,
        }) == line_result(path@, index + 1, line@, m.spec_pattern(), case_sensitive),
        r matches Some(sr) ==> spans_wf(
            sr@.spans,
            encode_utf8(searched_text(line@, case_sensitive)).len() as int,
        ),
        r matches Some(sr) ==> ((case_sensitive || is_ascii_chars(line@)) ==> spans_wf(
            sr@.spans,
            encode_utf8(line@).len() as int,
        )),
        !case_sensitive && is_ascii_chars(line@) ==> lower_of(line@) == ascii_lower(line@),
        r matches Some(sr) ==> (!case_sensitive && is_ascii_chars(line@) ==> sr@.spans
            == regex_matches(m.spec_pattern(), ascii_lower(line@))),
{
    let searched: String = if case_sensitive {
        line.clone()
    } else {
        to_lower(line.as_str())
    };
    proof {
        assert(searched@ == searched_text(line@, case_sensitive));
        if !case_sensitive && is_ascii_chars(line@) {
            assert forall|i: int| 0 <= i < searched@.len() implies '\0' <= #[trigger] searched@[i]
                <= '\u{7f}' by {
                assert(searched@[i] == ascii_lower_char(line@[i]));
            }
            is_ascii_chars_encode_utf8(line@);
            is_ascii_chars_encode_utf8(searched@);
        }
    }
    let spans = m.find_matches(searched.as_str());
    if spans.len() == 0 {
        proof {
            assert(spans_to_ints(spans@) =~= Seq::<(int, int)>::empty());
        }
        None
    } else {
        let sr = SearchResult {
            file_path: path.clone(),
            line_number: index + 1,
            line: line.clone(),
            matches: spans,
        };
        proof {
            let lr = line_result(path@, index + 1, line@, m.spec_pattern(), case_sensitive);
            assert(sr@ =~= lr->Some_0);
        }
        Some(sr)
    }
}

/// Scan a file's lines in order, numbering from 1: the buffered small-file
/// strategy. Returns exactly the per-line scan's results, in ascending
/// line-number order.
pub fn scan_lines(
    path: &String,
    lines: &Vec<String>,
    m: &Matcher,
    case_sensitive: bool,
) -> (r: Vec<SearchResult>)
    ensures
        results_view(r@) == spec_scan(path@, lines.deep_view(), m.spec_pattern(), case_sensitive),
{
    let ghost dv = lines.deep_view();
    let mut res: Vec<SearchResult> = Vec::new();
    let mut i: usize = 0;
    while i < lines.len()
        invariant
            i <= lines.len(),
            dv == lines.deep_view(),
            dv.len() == lines@.len(),
            results_view(res@) == spec_scan(path@, dv.take(i as int), m.spec_pattern(), case_sensitive),
        decreases lines.len() - i,
    {
        let ghost prev = res@;
        let line_opt = scan_line(path, i, &lines[i], m, case_sensitive);
        proof {
            assert(dv[i as int] == lines@[i as int]@);
            assert(dv.take(i + 1 as int).drop_last() =~= dv.take(i as int));
            assert(dv.take(i + 1 as int).last() == dv[i as int]);
        }
        if let Some(sr) = line_opt {
            res.push(sr);
            proof {
                assert(results_view(prev.push(sr)) =~= results_view(prev).push(sr@));
            }
        }
        proof {
            assert(results_view(res@) =~= spec_scan(
                path@,
                dv.take(i + 1 as int),
                m.spec_pattern(),
                case_sensitive,
            ));
        }
        i += 1;
    }
    proof {
        assert(dv.take(lines@.len() as int) =~= dv);
    }
    res
}

/// Scan a file's lines with data-parallel fan-out across lines: the
/// memory-mapped large-file strategy. The contract is that of the sequential
/// scan: the same results, re-assembled in ascending line-number order.
///
/// Relies on rayon's `par_iter`, `enumerate`, `filter_map` and `collect`:
/// every line is handed to the verified `scan_line`, and collecting into a
/// `Vec` preserves the lines' relative order (rayon combines the split
/// halves of the input in order), so the outcome equals the sequential scan.
#[verifier::external_body]
pub fn par_scan_lines(
    path: &String,
    lines: &Vec<String>,
    m: &Matcher,
    case_sensitive: bool,
) -> (r: Vec<SearchResult>)
    ensures
        results_view(r@) == spec_scan(path@, lines.deep_view(), m.spec_pattern(), case_sensitive),
{
    lines
        .par_iter()
        .enumerate()
        .filter_map(|(i, line)| scan_line(path, i, line, m, case_sensitive))
        .collect()
}

/// A piece with one trailing carriage return removed: what a line ending in
/// `\r\n` keeps once split at the `\n`.
pub open spec fn strip_cr(piece: Seq<u8>) -> Seq<u8> {
    if piece.len() > 0 && piece.last() == 13 {
        piece.drop_last()
    } else {
        piece
    }
}

/// The lines of a byte text, split the way `str::lines` splits: at every
/// newline byte, a carriage return directly before a newline dropped, and no
/// empty final line when the text ends in a newline. `cur` is the part of the
/// current line read so far.
pub open spec fn split_acc(s: Seq<u8>, cur: Seq<u8>) -> Seq<Seq<u8>>
    decreases s.len(),
{
    if s.len() == 0 {
        if cur.len() == 0 {
            Seq::empty()
        } else {
            seq![cur]
        }
    } else if s.first() == 10 {
        seq![strip_cr(cur)] + split_acc(s.drop_first(), Seq::empty())
    } else {
        split_acc(s.drop_first(), cur.push(s.first()))
    }
}

/// The lines of a byte text.
pub open spec fn spec_split_lines(s: Seq<u8>) -> Seq<Seq<u8>> {
    split_acc(s, Seq::empty())
}

/// Split a text's bytes into lines: at every newline, dropping a carriage
/// return that directly precedes one, with no empty final line for a text
/// that ends in a newline.
pub fn split_lines(content: &Vec<u8>) -> (r: Vec<Vec<u8>>)
    ensures
        r.deep_view() == spec_split_lines(content@),
{
    let mut lines: Vec<Vec<u8>> = Vec::new();
    let mut cur: Vec<u8> = Vec::new();
    let mut i: usize = 0;
    proof {
        assert(content@.skip(0) =~= content@);
        assert(lines.deep_view() =~= Seq::<Seq<u8>>::empty());
        assert(lines.deep_view() + split_acc(content@, cur@) =~= split_acc(content@, cur@));
    }
    while i < content.len()
        invariant
            i <= content@.len(),
            lines.deep_view() + split_acc(content@.skip(i as int), cur@) == spec_split_lines(
                content@,
            ),
        decreases content@.len() - i,
    {
        let ghost prev_lines = lines.deep_view();
        let ghost prev_cur = cur@;
        proof {
            assert(content@.skip(i as int).first() == content@[i as int]);
            assert(content@.skip(i as int).drop_first() =~= content@.skip(i + 1 as int));
        }
        let b = content[i];
        if b == 10 {
            let mut line = cur;
            cur = Vec::new();
            if line.len() > 0 && line[line.len() - 1] == 13 {
                line.pop();
                proof {
                    assert(line@ =~= strip_cr(prev_cur));
                }
            } else {
                proof {
                    assert(line@ =~= strip_cr(prev_cur));
                }
            }
            lines.push(line);
            proof {
                assert(lines.deep_view() =~~= prev_lines.push(strip_cr(prev_cur)));
                assert(prev_lines.push(strip_cr(prev_cur)) =~~= prev_lines + seq![
                    strip_cr(prev_cur),
                ]);
                assert(lines.deep_view() + split_acc(
                    content@.skip(i + 1 as int),
                    Seq::<u8>::empty(),
                ) =~= spec_split_lines(content@));
            }
        } else {
            cur.push(b);
        }
        i += 1;
    }
    proof {
        assert(content@.skip(content@.len() as int) =~= Seq::<u8>::empty());
    }
    if cur.len() > 0 {
        let ghost prev_lines = lines.deep_view();
        let ghost last = cur@;
        lines.push(cur);
        proof {
            assert(lines.deep_view() =~~= prev_lines.push(last));
            assert(prev_lines.push(last) =~~= prev_lines + seq![last]);
        }
    } else {
        proof {
            assert(lines.deep_view() + Seq::<Seq<u8>>::empty() =~= lines.deep_view());
        }
    }
    lines
}

/// What `String::from_utf8_lossy` returns for the given bytes: the result
/// depends on the bytes alone.
pub uninterp spec fn decoded_of(bytes: Seq<u8>) -> Seq<char>;

/// Relies on `String::from_utf8_lossy`: the result is a function of the
/// bytes alone; valid UTF-8 decodes exactly, and bytes below 128 are valid
/// UTF-8 and decode to themselves.
#[verifier::external_body]
fn lossy_decode(bytes: &Vec<u8>) -> (r: String)
    ensures
        r@ == decoded_of(bytes@),
        valid_utf8(bytes@) ==> r@ == decode_utf8(bytes@),
        (forall|i: int| 0 <= i < bytes@.len() ==> bytes@[i] < 128) ==> r@ == bytes@.map_values(
            |b: u8| b as char,
        ),
{
    String::from_utf8_lossy(bytes).into_owned()
}

/// The text of a byte content: its lines, each decoded with invalid UTF-8
/// sequences replaced.
pub open spec fn content_lines(content: Seq<u8>) -> Seq<Seq<char>> {
    spec_split_lines(content).map_values(|l: Seq<u8>| decoded_of(l))
}

/// The whole large-file scan on a file's raw bytes: decode leniently
/// (invalid sequences replaced, never failing, unlike the small-file path),
/// split into lines, and scan them with data-parallel fan-out, the results
/// in ascending line-number order.
pub fn scan_content(path: &String, content: &Vec<u8>, m: &Matcher, case_sensitive: bool) -> (r: Vec<
    SearchResult,
>)
    ensures
        results_view(r@) == spec_scan(
            path@,
            content_lines(content@),
            m.spec_pattern(),
            case_sensitive,
        ),
{
    let byte_lines = split_lines(content);
    let ghost bdv = byte_lines.deep_view();
    let mut lines: Vec<String> = Vec::new();
    let mut i: usize = 0;
    while i < byte_lines.len()
        invariant
            i <= byte_lines@.len(),
            bdv == byte_lines.deep_view(),
            bdv.len() == byte_lines@.len(),
            bdv == spec_split_lines(content@),
            lines.deep_view() == bdv.take(i as int).map_values(|l: Seq<u8>| decoded_of(l)),
        decreases byte_lines@.len() - i,
    {
        let ghost prev = lines.deep_view();
        let s = lossy_decode(&byte_lines[i]);
        lines.push(s);
        proof {
            assert(bdv[i as int] == byte_lines@[i as int]@);
            assert(lines.deep_view() =~= prev.push(decoded_of(bdv[i as int])));
            assert(bdv.take(i + 1 as int) =~= bdv.take(i as int).push(bdv[i as int]));
            assert(bdv.take(i + 1 as int).map_values(|l: Seq<u8>| decoded_of(l)) =~= bdv.take(
                i as int,
            ).map_values(|l: Seq<u8>| decoded_of(l)).push(decoded_of(bdv[i as int])));
        }
        i += 1;
    }
    proof {
        assert(bdv.take(bdv.len() as int) =~= bdv);
        assert(lines.deep_view() =~= content_lines(content@));
    }
    par_scan_lines(path, &lines, m, case_sensitive)
}

/// In literal mode a line's matches are exactly the non-overlapping
/// left-to-right occurrences of the term in the searched text, and their
/// number is the number of those occurrences; every reported span is a
/// verbatim occurrence, metacharacters in the term notwithstanding. Stated
/// for ASCII term and searched text, where byte offsets and character
/// positions coincide; the premise on the pattern is what `compile_pattern`
/// ensures of a literal-mode matcher.
pub proof fn lemma_literal_line_matches(
    term: Seq<char>,
    pattern: Seq<char>,
    line: Seq<char>,
    case_sensitive: bool,
)
    requires
        forall|text: Seq<char>|
            is_ascii_chars(text) && is_ascii_chars(term) ==> regex_matches(pattern, text)
                == lit_matches(term, text),
        is_ascii_chars(term),
        is_ascii_chars(searched_text(line, case_sensitive)),
    ensures
        line_spans(pattern, line, case_sensitive) == lit_matches(
            term,
            searched_text(line, case_sensitive),
        ),
        spans_are_occurrences(
            term,
            searched_text(line, case_sensitive),
            line_spans(pattern, line, case_sensitive),
        ),
{
    lemma_lit_spans_are_occurrences(term, searched_text(line, case_sensitive), 0);
}

/// The two scan strategies agree: any two result sequences that both record
/// the per-line scan of the same lines under the same pattern and case mode
/// are equal, file for file, line for line and span for span.
pub proof fn lemma_strategies_agree(
    r1: Seq<ResultView>,
    r2: Seq<ResultView>,
    path: Seq<char>,
    lines: Seq<Seq<char>>,
    pattern: Seq<char>,
    case_sensitive: bool,
)
    requires
        r1 == spec_scan(path, lines, pattern, case_sensitive),
        r2 == spec_scan(path, lines, pattern, case_sensitive),
    ensures
        r1 == r2,
{
}

} // verus!
