//! Markdown export of a note.

use vstd::prelude::*;
use crate::export::ExportData;
use crate::llm::prompt::opt_view;
use crate::models::note::{format_utc, in_chrono_range, plain_strftime, utc_text, Note};
use crate::models::Segment;
use crate::text::{
    extend_str, int_text, magnitude, pad2_text, push_signed, push_signed_pad2, string_of, tdiv, trem,
};

verus! {

broadcast use vstd::string::group_string_axioms;

/// A time offset in milliseconds as `mm:ss`, each part as `{:02}`.
pub open spec fn timestamp_text(ms: int) -> Seq<char> {
    let total = tdiv(ms, 1000);
    pad2_text(tdiv(total, 60)) + seq![':'] + pad2_text(trem(total, 60))
}

/// The language line, when the language is known.
pub open spec fn language_line(language: Option<Seq<char>>) -> Seq<char> {
    match language {
        Some(l) => "**Language:** "@ + l + "  \n"@,
        None => Seq::empty(),
    }
}

/// The duration line (`{m}m {s}s`), when the duration is known.
pub open spec fn duration_line(duration_ms: Option<i64>) -> Seq<char> {
    match duration_ms {
        Some(d) => "**Duration:** "@ + int_text(tdiv(d as int, 60000)) + "m "@ + int_text(
            tdiv(trem(d as int, 60000), 1000),
        ) + "s  \n"@,
        None => Seq::empty(),
    }
}

/// The summary block, when there is a summary.
pub open spec fn summary_block(summary: Option<Seq<char>>) -> Seq<char> {
    match summary {
        Some(s) => "## Summary\n\n"@ + s + "\n\n---\n\n"@,
        None => Seq::empty(),
    }
}

/// The header block: title, date (as given), language, duration,
/// summary, and the transcript heading.
pub open spec fn header_text(note: Note, summary: Option<Seq<char>>, date: Seq<char>) -> Seq<char> {
    "# "@ + note.title@ + "\n\n"@ + "**Date:** "@ + date + "  \n"@
        + language_line(opt_view(note.language)) + duration_line(note.duration_ms) + "\n---\n\n"@
        + summary_block(summary) + "## Transcript\n\n"@
}

/// The speaker heading written when the speaker changes: the speaker in
/// bold with the time, or the time in italics when no speaker is known.
pub open spec fn speaker_heading(speaker: Option<Seq<char>>, start_ms: i64) -> Seq<char> {
    match speaker {
        Some(s) => "\n**"@ + s + "** ("@ + timestamp_text(start_ms as int) + ")\n\n"@,
        None => "\n*"@ + timestamp_text(start_ms as int) + "*\n\n"@,
    }
}

/// The transcript block, given the speaker of the previous segment.
pub open spec fn transcript_text(segs: Seq<Segment>, current: Option<Seq<char>>) -> Seq<char>
    decreases segs.len(),
{
    if segs.len() == 0 {
        Seq::empty()
    } else {
        let s = segs[0];
        let sp = opt_view(s.speaker_id);
        (if sp != current {
            speaker_heading(sp, s.start_ms)
        } else {
            Seq::empty()
        }) + s.text@ + "\n\n"@ + transcript_text(segs.drop_first(), sp)
    }
}

/// The Markdown document of a note, with its creation time written as
/// `date`.
pub open spec fn markdown_doc(note: Note, segs: Seq<Segment>, summary: Option<Seq<char>>, date: Seq<char>) -> Seq<char> {
    header_text(note, summary, date) + transcript_text(segs, None)
}

/// How the header writes the creation time: UTC, to the minute.
pub const DATE_FORMAT: &'static str = "%Y-%m-%d %H:%M";

/// The Markdown document of a note, dated to the minute (UTC).
pub open spec fn markdown_text(note: Note, segs: Seq<Segment>, summary: Option<Seq<char>>) -> Seq<char> {
    markdown_doc(note, segs, summary, utc_text(note.created_at.secs, DATE_FORMAT@))
}

/// The speaker of the last of `segs`, or `start` when there are none.
pub open spec fn last_speaker(segs: Seq<Segment>, start: Option<Seq<char>>) -> Option<Seq<char>> {
    if segs.len() == 0 {
        start
    } else {
        opt_view(segs.last().speaker_id)
    }
}

/// The transcript grows segment by segment: a further segment adds a
/// heading exactly when its speaker differs from the speaker of the
/// segment before it (known or unknown), then its text.
pub proof fn lemma_transcript_append(segs: Seq<Segment>, x: Segment, current: Option<Seq<char>>)
    ensures
        transcript_text(segs.push(x), current) == transcript_text(segs, current) + (if opt_view(x.speaker_id)
            != last_speaker(segs, current) {
            speaker_heading(opt_view(x.speaker_id), x.start_ms)
        } else {
            Seq::empty()
        }) + x.text@ + "\n\n"@,
    decreases segs.len(),
{
    let all = segs.push(x);
    if segs.len() == 0 {
        assert(all =~= seq![x]);
        assert(all.drop_first() =~= Seq::<Segment>::empty());
        assert(transcript_text(all.drop_first(), opt_view(x.speaker_id)) == Seq::<char>::empty());
        assert(transcript_text(segs, current) == Seq::<char>::empty());
    } else {
        let s0 = segs[0];
        let sp = opt_view(s0.speaker_id);
        assert(all[0] == s0);
        assert(all.drop_first() =~= segs.drop_first().push(x));
        lemma_transcript_append(segs.drop_first(), x, sp);
        if segs.len() == 1 {
            assert(segs.drop_first() =~= Seq::<Segment>::empty());
        } else {
            assert(segs.drop_first().last() == segs.last());
        }
        assert(last_speaker(segs.drop_first(), sp) == last_speaker(segs, current));
        let head = if sp != current { speaker_heading(sp, s0.start_ms) } else { Seq::<char>::empty() };
        let tail = (if opt_view(x.speaker_id) != last_speaker(segs, current) {
            speaker_heading(opt_view(x.speaker_id), x.start_ms)
        } else {
            Seq::empty()
        }) + x.text@ + "\n\n"@;
        assert(transcript_text(all, current) == head + s0.text@ + "\n\n"@ + transcript_text(all.drop_first(), sp));
        assert(transcript_text(segs, current) == head + s0.text@ + "\n\n"@ + transcript_text(segs.drop_first(), sp));
        assert(transcript_text(all, current) =~= transcript_text(segs, current) + tail);
    }
}

/// Two segments of different known speakers each get a heading, in order.
pub proof fn lemma_transcript_two_speakers(s1: Segment, s2: Segment, a: String, b: String)
    requires
        s1.speaker_id == Some(a),
        s2.speaker_id == Some(b),
        a@ != b@,
    ensures
        transcript_text(seq![s1, s2], None) == speaker_heading(Some(a@), s1.start_ms) + s1.text@ + "\n\n"@
            + speaker_heading(Some(b@), s2.start_ms) + s2.text@ + "\n\n"@,
{
    assert(seq![s1].push(s2) =~= seq![s1, s2]);
    lemma_transcript_append(seq![s1], s2, None);
    lemma_transcript_append(Seq::<Segment>::empty(), s1, None);
    assert(Seq::<Segment>::empty().push(s1) =~= seq![s1]);
    assert(transcript_text(Seq::<Segment>::empty(), None) == Seq::<char>::empty());
    assert(opt_view(s1.speaker_id) == Some(a@));
    assert(opt_view(s2.speaker_id) == Some(b@));
    assert(last_speaker(seq![s1], None) == Some(a@));
    assert(transcript_text(seq![s1, s2], None) =~= speaker_heading(Some(a@), s1.start_ms) + s1.text@ + "\n\n"@
        + speaker_heading(Some(b@), s2.start_ms) + s2.text@ + "\n\n"@);
}

/// A time offset in milliseconds as `mm:ss`.
pub fn format_timestamp(ms: i64) -> (r: String)
    ensures
        r@ == timestamp_text(ms as int),
{
    let mut out: Vec<char> = Vec::new();
    push_timestamp(&mut out, ms);
    string_of(&out)
}

fn push_timestamp(out: &mut Vec<char>, ms: i64)
    ensures
        final(out)@ == old(out)@ + timestamp_text(ms as int),
{
    let neg = ms < 0;
    let m = magnitude(ms);
    let t = m / 1000;
    let mi = t / 60;
    let se = t % 60;
    proof {
        let total = tdiv(ms as int, 1000);
        assert(total == if neg { -(t as int) } else { t as int });
        assert(tdiv(total, 60) == if neg { -(mi as int) } else { mi as int });
        assert(trem(total, 60) == if neg { -(se as int) } else { se as int });
    }
    push_signed_pad2(out, neg, mi);
    out.push(':');
    push_signed_pad2(out, neg, se);
    assert(out@ =~= old(out)@ + timestamp_text(ms as int));
}

fn same_speaker(a: &Option<String>, b: &Option<String>) -> (r: bool)
    ensures
        r == (opt_view(*a) == opt_view(*b)),
{
    match (a, b) {
        (Some(x), Some(y)) => crate::text::str_eq(x.as_str(), y.as_str()),
        (None, None) => true,
        _ => false,
    }
}

fn clone_opt(o: &Option<String>) -> (r: Option<String>)
    ensures
        opt_view(r) == opt_view(*o),
{
    match o {
        Some(s) => Some(s.clone()),
        None => None,
    }
}

fn push_language(out: &mut Vec<char>, language: &Option<String>)
    ensures
        final(out)@ == old(out)@ + language_line(opt_view(*language)),
{
    match language {
        Some(l) => {
            extend_str(out, "**Language:** ");
            extend_str(out, l.as_str());
            extend_str(out, "  \n");
            assert(out@ =~= old(out)@ + language_line(opt_view(*language)));
        },
        None => {
            assert(out@ =~= old(out)@ + language_line(opt_view(*language)));
        },
    }
}

fn push_duration(out: &mut Vec<char>, duration_ms: Option<i64>)
    ensures
        final(out)@ == old(out)@ + duration_line(duration_ms),
{
    match duration_ms {
        Some(d) => {
            let neg = d < 0;
            let m = magnitude(d);
            let mins = m / 60000;
            let secs = (m % 60000) / 1000;
            proof {
                assert(tdiv(d as int, 60000) == if neg { -(mins as int) } else { mins as int });
                let r = trem(d as int, 60000);
                assert(r == if neg { -((m % 60000) as int) } else { (m % 60000) as int });
                assert(tdiv(r, 1000) == if neg { -(secs as int) } else { secs as int });
            }
            extend_str(out, "**Duration:** ");
            push_signed(out, neg, mins);
            extend_str(out, "m ");
            push_signed(out, neg, secs);
            extend_str(out, "s  \n");
            assert(out@ =~= old(out)@ + duration_line(duration_ms));
        },
        None => {
            assert(out@ =~= old(out)@ + duration_line(duration_ms));
        },
    }
}

fn push_summary(out: &mut Vec<char>, summary: &Option<String>)
    ensures
        final(out)@ == old(out)@ + summary_block(opt_view(*summary)),
{
    match summary {
        Some(s) => {
            extend_str(out, "## Summary\n\n");
            extend_str(out, s.as_str());
            extend_str(out, "\n\n---\n\n");
            assert(out@ =~= old(out)@ + summary_block(opt_view(*summary)));
        },
        None => {
            assert(out@ =~= old(out)@ + summary_block(opt_view(*summary)));
        },
    }
}

fn push_header(out: &mut Vec<char>, note: &Note, summary: &Option<String>, date: &str)
    ensures
        final(out)@ == old(out)@ + header_text(*note, opt_view(*summary), date@),
{
    extend_str(out, "# ");
    extend_str(out, note.title.as_str());
    extend_str(out, "\n\n");
    extend_str(out, "**Date:** ");
    extend_str(out, date);
    extend_str(out, "  \n");
    let ghost mid = out@;
    push_language(out, &note.language);
    push_duration(out, note.duration_ms);
    extend_str(out, "\n---\n\n");
    push_summary(out, summary);
    extend_str(out, "## Transcript\n\n");
    assert(out@ =~= old(out)@ + header_text(*note, opt_view(*summary), date@));
}

/// The Markdown document of a note: a header with title, date, language,
/// duration and summary, then the transcript, with a heading wherever the
/// speaker changes.
pub fn export_markdown(data: &ExportData) -> (md: String)
    requires
        in_chrono_range(data.note.created_at.secs),
    ensures
        md@ == markdown_text(data.note, data.segments@, opt_view(data.summary)),
{
    proof {
        reveal_strlit("%Y-%m-%d %H:%M");
        reveal_with_fuel(plain_strftime, 12);
    }
    assert(plain_strftime(DATE_FORMAT@));
    let date = format_utc(data.note.created_at.secs, DATE_FORMAT);
    render_markdown(data, date.as_str())
}

/// The Markdown document of a note whose creation time reads `date`.
pub fn render_markdown(data: &ExportData, date: &str) -> (md: String)
    ensures
        md@ == markdown_doc(data.note, data.segments@, opt_view(data.summary), date@),
{
    let mut out: Vec<char> = Vec::new();
    push_header(&mut out, &data.note, &data.summary, date);
    assert(out@ =~= header_text(data.note, opt_view(data.summary), date@));
    let ghost head = out@;
    let segs = &data.segments;
    let mut current: Option<String> = None;
    let mut i: usize = 0;
    assert(segs@.skip(0) =~= segs@);
    while i < segs.len()
        invariant
            i <= segs.len(),
            out@ + transcript_text(segs@.skip(i as int), opt_view(current)) == head + transcript_text(
                segs@,
                None,
            ),
        decreases segs.len() - i,
    {
        let seg = &segs[i];
        let ghost out0 = out@;
        let ghost rest = segs@.skip(i as int);
        assert(rest[0] == *seg);
        assert(rest.drop_first() =~= segs@.skip(i + 1));
        if !same_speaker(&seg.speaker_id, &current) {
            match &seg.speaker_id {
                Some(sp) => {
                    extend_str(&mut out, "\n**");
                    extend_str(&mut out, sp.as_str());
                    extend_str(&mut out, "** (");
                    push_timestamp(&mut out, seg.start_ms);
                    extend_str(&mut out, ")\n\n");
                },
                None => {
                    extend_str(&mut out, "\n*");
                    push_timestamp(&mut out, seg.start_ms);
                    extend_str(&mut out, "*\n\n");
                },
            }
            assert(out@ =~= out0 + speaker_heading(opt_view(seg.speaker_id), seg.start_ms));
            current = clone_opt(&seg.speaker_id);
        }
        extend_str(&mut out, seg.text.as_str());
        extend_str(&mut out, "\n\n");
        i += 1;
        assert(out@ + transcript_text(segs@.skip(i as int), opt_view(current)) =~= head + transcript_text(
            segs@,
            None,
        ));
    }
    assert(segs@.skip(i as int) =~= Seq::<Segment>::empty());
    assert(out@ =~= markdown_doc(data.note, data.segments@, opt_view(data.summary), date@));
    string_of(&out)
}

} // verus!
