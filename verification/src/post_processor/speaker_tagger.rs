//! Attributes transcript segments to speakers.

use vstd::prelude::*;
use crate::diarize::SpeakerSegment;
use crate::models::Segment;

verus! {

/// The length of the overlap of two time spans, or 0 when they do not
/// overlap.
pub open spec fn overlap(a_start: int, a_end: int, b_start: int, b_end: int) -> int {
    let lo = if a_start >= b_start { a_start } else { b_start };
    let hi = if a_end <= b_end { a_end } else { b_end };
    if hi - lo > 0 {
        hi - lo
    } else {
        0
    }
}

/// Scanning speakers from index `i` on, with the best overlap so far
/// `best_len` at index `best`: the index of the first speaker whose overlap
/// with the span is largest, if any overlap is positive.
pub open spec fn best_from(
    start: int,
    end: int,
    sp: Seq<SpeakerSegment>,
    i: int,
    best_len: int,
    best: Option<int>,
) -> Option<int>
    decreases sp.len() - i,
{
    if i < 0 || i >= sp.len() {
        best
    } else {
        let o = overlap(start, end, sp[i].start_ms as int, sp[i].end_ms as int);
        if o > best_len {
            best_from(start, end, sp, i + 1, o, Some(i))
        } else {
            best_from(start, end, sp, i + 1, best_len, best)
        }
    }
}

/// The speaker segment that overlaps a span most (the first of equals),
/// if any overlaps it.
pub open spec fn best_speaker(start: int, end: int, sp: Seq<SpeakerSegment>) -> Option<int> {
    best_from(start, end, sp, 0, 0, None)
}

/// The signed overlap of two spans, the end of the earlier-ending minus
/// the start of the later-starting, fits in `i64`.
pub open spec fn overlap_fits(a_start: int, a_end: int, b_start: int, b_end: int) -> bool {
    let lo = if a_start >= b_start { a_start } else { b_start };
    let hi = if a_end <= b_end { a_end } else { b_end };
    i64::MIN <= hi - lo <= i64::MAX
}

/// The overlaps of every span with every speaker segment fit in `i64`.
pub open spec fn overlaps_fit(segs: Seq<Segment>, sp: Seq<SpeakerSegment>) -> bool {
    forall|i: int, j: int|
        0 <= i < segs.len() && 0 <= j < sp.len() ==> overlap_fits(
            (#[trigger] segs[i]).start_ms as int,
            segs[i].end_ms as int,
            (#[trigger] sp[j]).start_ms as int,
            sp[j].end_ms as int,
        )
}

/// `seg` after tagging: the speaker of `best`, or unchanged.
pub open spec fn tagged(seg: Segment, sp: Seq<SpeakerSegment>) -> Segment {
    match best_speaker(seg.start_ms as int, seg.end_ms as int, sp) {
        Some(k) => Segment { speaker_id: Some(sp[k].speaker_id), ..seg },
        None => seg,
    }
}

/// Tagging gives a segment the speaker of the turn that overlaps it most,
/// whatever speaker it had before; a segment that no turn overlaps keeps
/// its speaker; the id, note, text, times and confidence never change.
pub proof fn lemma_tagged_takes_best_speaker(seg: Segment, sp: Seq<SpeakerSegment>)
    ensures
        best_speaker(seg.start_ms as int, seg.end_ms as int, sp) matches Some(k) ==> tagged(seg, sp).speaker_id
            == Some(sp[k].speaker_id),
        best_speaker(seg.start_ms as int, seg.end_ms as int, sp) is None ==> tagged(seg, sp).speaker_id
            == seg.speaker_id,
        tagged(seg, sp).id == seg.id,
        tagged(seg, sp).note_id == seg.note_id,
        tagged(seg, sp).text == seg.text,
        tagged(seg, sp).start_ms == seg.start_ms,
        tagged(seg, sp).end_ms == seg.end_ms,
        tagged(seg, sp).confidence == seg.confidence,
{
}

fn best_index(seg: &Segment, speaker_segments: &[SpeakerSegment]) -> (r: Option<usize>)
    requires
        forall|j: int|
            0 <= j < speaker_segments@.len() ==> overlap_fits(
                seg.start_ms as int,
                seg.end_ms as int,
                (#[trigger] speaker_segments@[j]).start_ms as int,
                speaker_segments@[j].end_ms as int,
            ),
    ensures
        r matches Some(k) ==> k < speaker_segments@.len(),
        r matches Some(k) ==> best_speaker(seg.start_ms as int, seg.end_ms as int, speaker_segments@)
            == Some(k as int),
        r is None ==> best_speaker(seg.start_ms as int, seg.end_ms as int, speaker_segments@) is None,
{
    let ghost sp = speaker_segments@;
    let mut best_overlap: i64 = 0;
    let mut best: Option<usize> = None;
    let mut i: usize = 0;
    while i < speaker_segments.len()
        invariant
            i <= speaker_segments.len(),
            sp == speaker_segments@,
            best matches Some(b) ==> b < i,
            forall|j: int|
                0 <= j < sp.len() ==> overlap_fits(
                    seg.start_ms as int,
                    seg.end_ms as int,
                    (#[trigger] sp[j]).start_ms as int,
                    sp[j].end_ms as int,
                ),
            best_speaker(seg.start_ms as int, seg.end_ms as int, sp) == best_from(
                seg.start_ms as int,
                seg.end_ms as int,
                sp,
                i as int,
                best_overlap as int,
                match best {
                    Some(b) => Some(b as int),
                    None => None,
                },
            ),
        decreases speaker_segments.len() - i,
    {
        let ss = &speaker_segments[i];
        let lo = if seg.start_ms >= ss.start_ms { seg.start_ms } else { ss.start_ms };
        let hi = if seg.end_ms <= ss.end_ms { seg.end_ms } else { ss.end_ms };
        assert(sp[i as int] == *ss);
        assert(overlap_fits(seg.start_ms as int, seg.end_ms as int, sp[i as int].start_ms as int, sp[i as int].end_ms as int));
        let d = hi - lo;
        let o = if d > 0 { d } else { 0 };
        if o > best_overlap {
            best_overlap = o;
            best = Some(i);
        }
        i += 1;
    }
    best
}

fn with_speaker(seg: &Segment, speaker: &String) -> (r: Segment)
    ensures
        r == (Segment { speaker_id: Some(*speaker), ..*seg }),
{
    Segment {
        id: seg.id.clone(),
        note_id: seg.note_id.clone(),
        text: seg.text.clone(),
        start_ms: seg.start_ms,
        end_ms: seg.end_ms,
        speaker_id: Some(speaker.clone()),
        confidence: seg.confidence,
    }
}

/// Gives each segment the speaker whose segment overlaps it most (the
/// first of equals); segments that no speaker overlaps keep their speaker.
pub fn tag_speakers(segments: &mut Vec<Segment>, speaker_segments: &[SpeakerSegment])
    requires
        overlaps_fit(old(segments)@, speaker_segments@),
    ensures
        final(segments)@.len() == old(segments)@.len(),
        forall|i: int|
            0 <= i < old(segments)@.len() ==> #[trigger] final(segments)@[i] == tagged(
                old(segments)@[i],
                speaker_segments@,
            ),
        forall|i: int|
            0 <= i < old(segments)@.len() ==> (best_speaker(
                old(segments)@[i].start_ms as int,
                old(segments)@[i].end_ms as int,
                speaker_segments@,
            ) matches Some(k) ==> (#[trigger] final(segments)@[i]).speaker_id == Some(
                speaker_segments@[k].speaker_id,
            )),
{
    let ghost orig = segments@;
    let mut i: usize = 0;
    while i < segments.len()
        invariant
            i <= segments.len() == orig.len(),
            overlaps_fit(orig, speaker_segments@),
            forall|k: int| 0 <= k < i ==> #[trigger] segments@[k] == tagged(orig[k], speaker_segments@),
            forall|k: int| i <= k < orig.len() ==> #[trigger] segments@[k] == orig[k],
        decreases orig.len() - i,
    {
        assert(segments@[i as int] == orig[i as int]);
        assert forall|j: int| 0 <= j < speaker_segments@.len() implies overlap_fits(
            segments@[i as int].start_ms as int,
            segments@[i as int].end_ms as int,
            (#[trigger] speaker_segments@[j]).start_ms as int,
            speaker_segments@[j].end_ms as int,
        ) by {
            assert(orig[i as int] == segments@[i as int]);
            assert(overlap_fits(
                orig[i as int].start_ms as int,
                orig[i as int].end_ms as int,
                speaker_segments@[j].start_ms as int,
                speaker_segments@[j].end_ms as int,
            ));
        }
        match best_index(&segments[i], speaker_segments) {
            Some(k) => {
                let updated = with_speaker(&segments[i], &speaker_segments[k].speaker_id);
                segments.set(i, updated);
            },
            None => {},
        }
        i += 1;
    }
}

} // verus!
