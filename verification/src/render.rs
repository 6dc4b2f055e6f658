use vstd::prelude::*;

verus! {

use crate::pattern::spans_to_ints;
use crate::pattern::spans_wf;

/// One piece of a rendered line: a run of the line's bytes, highlighted when
/// it is a match span, plain when it is a gap between spans.
#[derive(Debug)]
pub struct Segment {
    pub text: Vec<u8>,
    pub highlighted: bool,
}

/// The mathematical content of a `Segment`.
#[verifier::ext_equal]
pub ghost struct SegView {
    pub text: Seq<u8>,
    pub highlighted: bool,
}

impl View for Segment {
    type V = SegView;

    open spec fn view(&self) -> SegView {
        SegView { text: self.text@, highlighted: self.highlighted }
    }
}

/// The views of a sequence of segments.
pub open spec fn segments_view(s: Seq<Segment>) -> Seq<SegView> {
    s.map_values(|g: Segment| g@)
}

/// The segmentation of a line whose spans at or after `last_end` remain to be
/// rendered: before each span its gap from the previous span (when not
/// empty), then the span itself highlighted, and after the last span the
/// plain tail of the line (when not empty).
pub open spec fn spec_segments_from(line: Seq<u8>, spans: Seq<(int, int)>, last_end: int) -> Seq<
    SegView,
>
    decreases spans.len(),
{
    if spans.len() == 0 {
        if last_end < line.len() {
            seq![SegView { text: line.subrange(last_end, line.len() as int), highlighted: false }]
        } else {
            Seq::empty()
        }
    } else {
        let s = spans.first().0;
        let e = spans.first().1;
        (if s > last_end {
            seq![SegView { text: line.subrange(last_end, s), highlighted: false }]
        } else {
            Seq::empty()
        }) + seq![SegView { text: line.subrange(s, e), highlighted: true }]
            + spec_segments_from(line, spans.drop_first(), e)
    }
}

/// The segments' texts, concatenated back into one byte string.
pub open spec fn segments_concat(segs: Seq<SegView>) -> Seq<u8>
    decreases segs.len(),
{
    if segs.len() == 0 {
        Seq::empty()
    } else {
        segs.first().text + segments_concat(segs.drop_first())
    }
}

proof fn lemma_concat_distributes(a: Seq<SegView>, b: Seq<SegView>)
    ensures
        segments_concat(a + b) == segments_concat(a) + segments_concat(b),
    decreases a.len(),
{
    if a.len() == 0 {
        assert(a + b =~= b);
        assert(segments_concat(a) + segments_concat(b) =~= segments_concat(b));
    } else {
        lemma_concat_distributes(a.drop_first(), b);
        assert((a + b).drop_first() =~= a.drop_first() + b);
        assert(segments_concat(a + b) =~= segments_concat(a) + segments_concat(b));
    }
}

/// Rendering loses no text and reorders none: for well-formed spans the
/// segments' texts concatenate back to exactly the line being rendered.
#[verifier::rlimit(100)]
pub proof fn lemma_segments_concat(line: Seq<u8>, spans: Seq<(int, int)>, last_end: int)
    requires
        spans_wf(spans, line.len() as int),
        0 <= last_end <= line.len(),
        spans.len() > 0 ==> last_end <= spans.first().0,
    ensures
        segments_concat(spec_segments_from(line, spans, last_end)) == line.subrange(
            last_end,
            line.len() as int,
        ),
    decreases spans.len(),
{
    if spans.len() == 0 {
        if last_end < line.len() {
            let segs = spec_segments_from(line, spans, last_end);
            assert(segs.drop_first() =~= Seq::<SegView>::empty());
            assert(segs.first().text =~= line.subrange(last_end, line.len() as int));
            assert(segments_concat(Seq::<SegView>::empty()) =~= Seq::<u8>::empty());
            assert(line.subrange(last_end, line.len() as int) + Seq::<u8>::empty() =~= line.subrange(
                last_end,
                line.len() as int,
            ));
            assert(segments_concat(segs) =~= line.subrange(last_end, line.len() as int));
        } else {
            assert(line.subrange(last_end, line.len() as int) =~= Seq::<u8>::empty());
        }
    } else {
        let s = spans.first().0;
        let e = spans.first().1;
        let rest = spans.drop_first();
        assert(spans[0] == spans.first());
        assert forall|i: int| 0 <= i < rest.len() implies 0 <= (#[trigger] rest[i]).0 <= rest[i].1
            <= line.len() by {
            assert(rest[i] == spans[i + 1]);
        }
        assert forall|i: int| 0 < i < rest.len() implies (#[trigger] rest[i]).0 >= rest[i - 1].1 by {
            assert(rest[i] == spans[i + 1]);
            assert(rest[i - 1] == spans[i]);
        }
        if rest.len() > 0 {
            assert(rest.first() == spans[1]);
            assert(spans[1].0 >= spans[0].1);
        }
        lemma_segments_concat(line, rest, e);
        let gap = if s > last_end {
            seq![SegView { text: line.subrange(last_end, s), highlighted: false }]
        } else {
            Seq::<SegView>::empty()
        };
        let hit = seq![SegView { text: line.subrange(s, e), highlighted: true }];
        let tail = spec_segments_from(line, rest, e);
        assert(spec_segments_from(line, spans, last_end) == gap + hit + tail);
        lemma_concat_distributes(gap + hit, tail);
        lemma_concat_distributes(gap, hit);
        assert(hit.drop_first() =~= Seq::<SegView>::empty());
        assert(segments_concat(Seq::<SegView>::empty()) =~= Seq::<u8>::empty());
        assert(line.subrange(s, e) + Seq::<u8>::empty() =~= line.subrange(s, e));
        assert(segments_concat(hit) =~= line.subrange(s, e));
        if s > last_end {
            assert(gap.drop_first() =~= Seq::<SegView>::empty());
            assert(gap.first().text =~= line.subrange(last_end, s));
            assert(line.subrange(last_end, s) + Seq::<u8>::empty() =~= line.subrange(last_end, s));
            assert(segments_concat(gap) =~= line.subrange(last_end, s));
        } else {
            assert(segments_concat(gap) =~= Seq::<u8>::empty());
            assert(line.subrange(last_end, s) =~= Seq::<u8>::empty());
        }
        assert(line.subrange(last_end, s) + line.subrange(s, e) + line.subrange(
            e,
            line.len() as int,
        ) =~= line.subrange(last_end, line.len() as int));
        assert(segments_concat(spec_segments_from(line, spans, last_end)) =~= line.subrange(
            last_end,
            line.len() as int,
        ));
    }
}

/// Check that spans are within the line and ordered without overlap.
pub fn spans_valid(line_len: usize, spans: &Vec<(usize, usize)>) -> (r: bool)
    ensures
        r == spans_wf(spans_to_ints(spans@), line_len as int),
{
    let ghost ints = spans_to_ints(spans@);
    let mut i: usize = 0;
    while i < spans.len()
        invariant
            i <= spans.len(),
            ints == spans_to_ints(spans@),
            ints.len() == spans@.len(),
            forall|k: int| 0 <= k < i ==> 0 <= (#[trigger] ints[k]).0 <= ints[k].1 <= line_len as int,
            forall|k: int| 0 < k < i ==> (#[trigger] ints[k]).0 >= ints[k - 1].1,
        decreases spans.len() - i,
    {
        let (s, e) = spans[i];
        if !(s <= e && e <= line_len) {
            proof {
                assert(!(0 <= ints[i as int].0 <= ints[i as int].1 <= line_len as int));
            }
            return false;
        }
        if i > 0 {
            let (_, prev_end) = spans[i - 1];
            if s < prev_end {
                proof {
                    assert(ints[i as int].0 < ints[i as int - 1].1);
                }
                return false;
            }
        }
        i += 1;
    }
    true
}

fn bytes_range(line: &Vec<u8>, a: usize, b: usize) -> (r: Vec<u8>)
    requires
        a <= b <= line@.len(),
    ensures
        r@ == line@.subrange(a as int, b as int),
{
    let mut r: Vec<u8> = Vec::new();
    let mut j: usize = a;
    while j < b
        invariant
            a <= j <= b <= line@.len(),
            r@ == line@.subrange(a as int, j as int),
        decreases b - j,
    {
        r.push(line[j]);
        proof {
            assert(line@.subrange(a as int, j + 1 as int) =~= line@.subrange(a as int, j as int).push(
                line@[j as int],
            ));
        }
        j += 1;
    }
    r
}

/// Split a line's bytes into render segments at the recorded match spans.
/// Spans that do not form ordered, non-overlapping byte ranges within the
/// line are a boundary violation and yield nothing, so a renderer can skip
/// the line instead of slicing out of bounds; well-formed spans yield the
/// full segmentation.
pub fn split_segments(line: &Vec<u8>, spans: &Vec<(usize, usize)>) -> (r: Option<Vec<Segment>>)
    ensures
        r is Some <==> spans_wf(spans_to_ints(spans@), line@.len() as int),
        r matches Some(v) ==> segments_view(v@) == spec_segments_from(
            line@,
            spans_to_ints(spans@),
            0,
        ),
{
    let ghost ints = spans_to_ints(spans@);
    if !spans_valid(line.len(), spans) {
        return None;
    }
    let mut segs: Vec<Segment> = Vec::new();
    let mut last_end: usize = 0;
    let mut i: usize = 0;
    proof {
        assert(ints.skip(0) =~= ints);
        assert(segments_view(segs@) =~= Seq::<SegView>::empty());
        assert(segments_view(segs@) + spec_segments_from(line@, ints, 0) =~= spec_segments_from(
            line@,
            ints,
            0,
        ));
    }
    while i < spans.len()
        invariant
            i <= spans.len(),
            ints == spans_to_ints(spans@),
            ints.len() == spans@.len(),
            spans_wf(ints, line@.len() as int),
            last_end <= line@.len(),
            i > 0 ==> last_end as int == ints[i - 1].1,
            i == 0 ==> last_end == 0,
            segments_view(segs@) + spec_segments_from(line@, ints.skip(i as int), last_end as int)
                == spec_segments_from(line@, ints, 0),
        decreases spans.len() - i,
    {
        let ghost prev_segs = segs@;
        let ghost prev_last = last_end as int;
        let (s, e) = spans[i];
        proof {
            assert(ints[i as int] == (s as int, e as int));
            assert(ints.skip(i as int).first() == ints[i as int]);
            assert(ints.skip(i as int).drop_first() =~= ints.skip(i + 1 as int));
            if i > 0 {
                assert(ints[i as int].0 >= ints[i as int - 1].1);
            }
        }
        if s > last_end {
            let gap = bytes_range(line, last_end, s);
            segs.push(Segment { text: gap, highlighted: false });
        }
        let hit = bytes_range(line, s, e);
        segs.push(Segment { text: hit, highlighted: true });
        proof {
            let gap_seq = if s as int > prev_last {
                seq![SegView { text: line@.subrange(prev_last, s as int), highlighted: false }]
            } else {
                Seq::<SegView>::empty()
            };
            let hit_seq = seq![SegView { text: line@.subrange(s as int, e as int), highlighted: true }];
            assert(segments_view(segs@) =~= segments_view(prev_segs) + gap_seq + hit_seq);
            assert(spec_segments_from(line@, ints.skip(i as int), prev_last) == gap_seq + hit_seq
                + spec_segments_from(line@, ints.skip(i + 1 as int), e as int));
            assert(segments_view(segs@) + spec_segments_from(
                line@,
                ints.skip(i + 1 as int),
                e as int,
            ) =~= spec_segments_from(line@, ints, 0));
        }
        last_end = e;
        i += 1;
    }
    proof {
        assert(ints.skip(spans@.len() as int) =~= Seq::<(int, int)>::empty());
    }
    if last_end < line.len() {
        let ghost prev_segs = segs@;
        let tail = bytes_range(line, last_end, line.len());
        segs.push(Segment { text: tail, highlighted: false });
        proof {
            assert(segments_view(segs@) =~= segments_view(prev_segs) + seq![
                SegView {
                    text: line@.subrange(last_end as int, line@.len() as int),
                    highlighted: false,
                },
            ]);
            assert(segments_view(segs@) =~= spec_segments_from(line@, ints, 0));
        }
    } else {
        proof {
            assert(segments_view(segs@) + Seq::<SegView>::empty() =~= segments_view(segs@));
        }
    }
    Some(segs)
}

} // verus!
