use vstd::prelude::*;

verus! {

use vstd::utf8::encode_utf8;
use vstd::utf8::is_ascii_chars;
use vstd::utf8::is_char_boundary;
use crate::SearchError;

#[verifier::external_type_specification]
#[verifier::external_body]
pub struct ExRegex(regex::Regex);

#[verifier::external_type_specification]
#[verifier::external_body]
pub struct ExRegexError(regex::Error);

/// Whether `regex::Regex::new`, with its default configuration, accepts the
/// given pattern text. Compilation of a fixed pattern is deterministic, so
/// this is a function of the pattern alone.
pub uninterp spec fn regex_valid(pattern: Seq<char>) -> bool;

/// What `regex::escape` returns for the given term: the result depends on
/// the term alone.
pub uninterp spec fn escaped_of(term: Seq<char>) -> Seq<char>;

/// The match spans that `regex::Regex::find_iter` yields for the given
/// pattern over the given text: half-open byte-offset ranges into the UTF-8
/// encoding of the text, leftmost first, non-overlapping. Matching a fixed
/// pattern against fixed text is deterministic, so this is a function of the
/// two alone.
pub uninterp spec fn regex_matches(pattern: Seq<char>, text: Seq<char>) -> Seq<(int, int)>;

/// The spans of a vector of byte-offset pairs, as mathematical integers.
pub open spec fn spans_to_ints(s: Seq<(usize, usize)>) -> Seq<(int, int)> {
    s.map_values(|p: (usize, usize)| (p.0 as int, p.1 as int))
}

/// Well-formed spans over a text of `len` bytes: each span is a half-open
/// range within bounds, and successive spans are ordered and non-overlapping.
pub open spec fn spans_wf(spans: Seq<(int, int)>, len: int) -> bool {
    &&& forall|i: int| 0 <= i < spans.len() ==> 0 <= (#[trigger] spans[i]).0 <= spans[i].1 <= len
    &&& forall|i: int| 0 < i < spans.len() ==> (#[trigger] spans[i]).0 >= spans[i - 1].1
}

/// The term occurs verbatim in the text at position `i`.
pub open spec fn occurs_at(term: Seq<char>, text: Seq<char>, i: int) -> bool {
    &&& 0 <= i
    &&& i + term.len() <= text.len()
    &&& text.subrange(i, i + term.len() as int) == term
}

/// The non-overlapping occurrences of `term` in `text` at positions at least
/// `from`, scanning left to right: at each position the leftmost remaining
/// occurrence is taken and the scan resumes at its end (one position further
/// for an empty term, which occurs at every position).
pub open spec fn lit_matches_from(term: Seq<char>, text: Seq<char>, from: int) -> Seq<(int, int)>
    decreases text.len() + 1 - from when from >= 0
{
    if from > text.len() {
        Seq::empty()
    } else if occurs_at(term, text, from) {
        seq![(from, from + term.len() as int)] + lit_matches_from(
            term,
            text,
            if term.len() == 0 { from + 1 } else { from + term.len() as int },
        )
    } else {
        lit_matches_from(term, text, from + 1)
    }
}

/// All non-overlapping left-to-right occurrences of `term` in `text`.
pub open spec fn lit_matches(term: Seq<char>, text: Seq<char>) -> Seq<(int, int)> {
    lit_matches_from(term, text, 0)
}

/// Every listed span is an exact occurrence of the term in the text, ending
/// exactly one term length after it starts.
pub open spec fn spans_are_occurrences(term: Seq<char>, text: Seq<char>, spans: Seq<(int, int)>) -> bool {
    forall|k: int|
        0 <= k < spans.len() ==> occurs_at(term, text, (#[trigger] spans[k]).0) && spans[k].1
            == spans[k].0 + term.len()
}

/// Every span reported by the left-to-right literal scan is an exact
/// occurrence of the term.
pub proof fn lemma_lit_spans_are_occurrences(term: Seq<char>, text: Seq<char>, from: int)
    requires
        from >= 0,
    ensures
        spans_are_occurrences(term, text, lit_matches_from(term, text, from)),
    decreases text.len() + 1 - from,
{
    let s = lit_matches_from(term, text, from);
    if from > text.len() {
    } else if occurs_at(term, text, from) {
        let next = if term.len() == 0 { from + 1 } else { from + term.len() as int };
        lemma_lit_spans_are_occurrences(term, text, next);
        let rest = lit_matches_from(term, text, next);
        assert(s == seq![(from, from + term.len() as int)] + rest);
        assert forall|k: int| 0 <= k < s.len() implies occurs_at(
            term,
            text,
            (#[trigger] s[k]).0,
        ) && s[k].1 == s[k].0 + term.len() by {
            if k == 0 {
                assert(s[0] == (from, from + term.len() as int));
            } else {
                assert(s[k] == rest[k - 1]);
            }
        }
    } else {
        lemma_lit_spans_are_occurrences(term, text, from + 1);
        assert(s == lit_matches_from(term, text, from + 1));
    }
}

/// A compiled pattern, able to report the spans of all non-overlapping
/// matches in a line of text. The compiled form and the pattern text it was
/// built from travel together; only the trusted constructor below builds one.
pub struct Matcher {
    re: regex::Regex,
    pattern: String,
}

impl Matcher {
    /// The pattern text this matcher was compiled from.
    pub closed spec fn spec_pattern(&self) -> Seq<char> {
        self.pattern@
    }

    /// Relies on `regex::Regex::new`: with the default configuration it
    /// compiles the pattern, returning an error exactly when the pattern is
    /// refused.
    #[verifier::external_body]
    pub fn new(pattern: &str) -> (r: Result<Matcher, regex::Error>)
        ensures
            r is Ok <==> regex_valid(pattern@),
            r is Ok ==> r->Ok_0.spec_pattern() == pattern@,
    {
        match regex::Regex::new(pattern) {
            Ok(re) => Ok(Matcher { re, pattern: pattern.to_owned() }),
            Err(e) => Err(e),
        }
    }

    /// Relies on `regex::Regex::find_iter` (with `Match::start` / `Match::end`
    /// reading each match off): it yields the successive non-overlapping
    /// matches of the pattern, leftmost first, as half-open byte-offset
    /// ranges into the text, every offset on a code point boundary.
    #[verifier::external_body]
    pub fn find_matches(&self, text: &str) -> (r: Vec<(usize, usize)>)
        ensures
            spans_to_ints(r@) == regex_matches(self.spec_pattern(), text@),
            spans_wf(spans_to_ints(r@), encode_utf8(text@).len() as int),
            forall|k: int|
                0 <= k < r@.len() ==> is_char_boundary(
                    encode_utf8(text@),
                    (#[trigger] r@[k]).0 as int,
                ) && is_char_boundary(encode_utf8(text@), r@[k].1 as int),
    {
        let mut spans = Vec::new();
        for m in self.re.find_iter(text) {
            spans.push((m.start(), m.end()));
        }
        spans
    }
}

/// Relies on `regex::escape`: it escapes every regex metacharacter, so the
/// escaped text matches exactly the literal left-to-right non-overlapping
/// occurrences of the input (stated here for ASCII text, where byte offsets
/// and character positions coincide). Whether the escaped text then compiles
/// is `Regex::new`'s own decision: a very long literal can exceed the
/// engine's compiled-size limit.
#[verifier::external_body]
fn regex_escape(term: &str) -> (r: String)
    ensures
        r@ == escaped_of(term@),
        forall|text: Seq<char>|
            is_ascii_chars(text) && is_ascii_chars(term@) ==> regex_matches(r@, text)
                == lit_matches(term@, text),
{
    regex::escape(term)
}

/// Compile a search term into a matcher. In literal mode every regex
/// metacharacter in the term is escaped first, so the matcher finds exactly
/// the verbatim occurrences of the term; in regex mode the term is compiled
/// as written. A pattern the engine refuses — a malformed term in regex
/// mode, or in either mode one whose compiled form exceeds the engine's
/// size limit — is rejected as `InvalidPattern`.
pub fn compile_pattern(term: &str, use_regex: bool) -> (r: Result<Matcher, SearchError>)
    ensures
        r is Ok <==> regex_valid(
            if use_regex {
                term@
            } else {
                escaped_of(term@)
            },
        ),
        r is Err ==> r->Err_0 == SearchError::InvalidPattern,
        r is Ok ==> r->Ok_0.spec_pattern() == (if use_regex {
            term@
        } else {
            escaped_of(term@)
        }),
        !use_regex && r is Ok ==> (forall|text: Seq<char>|
            is_ascii_chars(text) && is_ascii_chars(term@) ==> regex_matches(
                r->Ok_0.spec_pattern(),
                text,
            ) == lit_matches(term@, text)),
{
    if use_regex {
        match Matcher::new(term) {
            Ok(m) => Ok(m),
            Err(_) => Err(SearchError::InvalidPattern),
        }
    } else {
        let escaped = regex_escape(term);
        match Matcher::new(escaped.as_str()) {
            Ok(m) => Ok(m),
            Err(_) => Err(SearchError::InvalidPattern),
        }
    }
}

} // verus!
