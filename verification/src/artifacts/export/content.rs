//! The content of an export as text: lines, subtitles and tables.

use vstd::prelude::*;
use vstd::string::*;

use crate::artifacts::export::segments::{
    a_label_gives_back_its_time, mm_ss, read_mm_ss, resolve_segment_timings, segment_views, timing,
    timings, write_mm_ss, ExportSegment, ResolvedSegmentTiming, SegmentView,
};
use crate::artifacts::export::speakers::{label_of, normalized_export_speaker_label};
use crate::artifacts::payloads::ExportStyle;
use crate::text::{
    a_decimal_gives_back_its_number, a_join_holds_its_parts_in_order,
    a_padded_number_gives_back_its_number, a_padded_number_is_digits, cat3, cat4, chars_of, contains,
    decimal, ends_with, in_order, inked, join, join_texts, lead_until, lemma_contains_middle, lemma_in_order_after,
    lemma_in_order_inside, lemma_inked_edge, lemma_lead_until_at, lemma_padded_width, number, padded,
    push_char, push_decimal, push_padded, same_text, starts_with, total_len, trim, trim_text,
    trimming_takes_white_only, views,
};

verus! {

// ---------------------------------------------------------------------------
// Times
// ---------------------------------------------------------------------------

/// A time in hours, minutes, seconds and milliseconds, with a mark before the milliseconds.
pub open spec fn clock_text(millis: nat, mark: Seq<char>) -> Seq<char> {
    padded(millis / 3_600_000, 2) + ":"@ + padded((millis % 3_600_000) / 60_000, 2) + ":"@ + padded(
        (millis % 60_000) / 1000,
        2,
    ) + mark + padded(millis % 1000, 3)
}

fn write_clock(total_millis: u64, mark: &str) -> (r: String)
    ensures
        r@ == clock_text(total_millis as nat, mark@),
{
    let mut out: String = String::new();
    push_padded(&mut out, total_millis / 3_600_000, 2);
    assert(out@ =~= padded((total_millis / 3_600_000) as nat, 2));
    out.append(":");
    push_padded(&mut out, (total_millis % 3_600_000) / 60_000, 2);
    out.append(":");
    push_padded(&mut out, (total_millis % 60_000) / 1000, 2);
    out.append(mark);
    push_padded(&mut out, total_millis % 1000, 3);
    out
}

/// Writes a time in minutes and seconds.
pub fn format_mm_ss_millis(total_millis: u64) -> (r: String)
    ensures
        r@ == mm_ss((total_millis / 1000) as nat),
{
    write_mm_ss(total_millis / 1000)
}

/// Writes a time as SubRip files have it.
pub fn format_srt_time(total_millis: u64) -> (r: String)
    ensures
        r@ == clock_text(total_millis as nat, ","@),
{
    write_clock(total_millis, ",")
}

/// Writes a time as WebVTT files have it.
pub fn format_vtt_time(total_millis: u64) -> (r: String)
    ensures
        r@ == clock_text(total_millis as nat, "."@),
{
    write_clock(total_millis, ".")
}

/// What stands behind the hours of a time.
spec fn clock_tail(millis: nat, mark: Seq<char>) -> Seq<char> {
    ":"@ + padded((millis % 3_600_000) / 60_000, 2) + ":"@ + padded((millis % 60_000) / 1000, 2)
        + mark + padded(millis % 1000, 3)
}

proof fn lemma_clock_tail(millis: nat, mark: Seq<char>)
    ensures
        clock_text(millis, mark) == padded(millis / 3_600_000, 2) + clock_tail(millis, mark),
        clock_tail(millis, mark).len() == 9 + mark.len(),
        clock_tail(millis, mark).subrange(1, 3) == padded((millis % 3_600_000) / 60_000, 2),
        clock_tail(millis, mark).subrange(4, 6) == padded((millis % 60_000) / 1000, 2),
        clock_tail(millis, mark).skip(6 + mark.len() as int) == padded(millis % 1000, 3),
{
    reveal_strlit(":");
    lemma_padded_width((millis % 3_600_000) / 60_000);
    lemma_padded_width((millis % 60_000) / 1000);
    lemma_padded_width(millis % 1000);
    assert(clock_text(millis, mark) =~= padded(millis / 3_600_000, 2) + clock_tail(millis, mark));
    assert(clock_tail(millis, mark).subrange(1, 3) =~= padded((millis % 3_600_000) / 60_000, 2));
    assert(clock_tail(millis, mark).subrange(4, 6) =~= padded((millis % 60_000) / 1000, 2));
    assert(clock_tail(millis, mark).skip(6 + mark.len() as int) =~= padded(millis % 1000, 3));
}

proof fn lemma_same_parts(a: Seq<char>, s: Seq<char>, b: Seq<char>, t: Seq<char>)
    requires
        a + s == b + t,
        s.len() == t.len(),
    ensures
        a == b,
        s == t,
{
    assert(a.len() + s.len() == (a + s).len());
    assert(b.len() + t.len() == (b + t).len());
    assert((a + s).take(a.len() as int) =~= a);
    assert((b + t).take(b.len() as int) =~= b);
    assert((a + s).skip(a.len() as int) =~= s);
    assert((b + t).skip(b.len() as int) =~= t);
}

proof fn lemma_same_padded(a: nat, b: nat, width: nat)
    requires
        padded(a, width) == padded(b, width),
    ensures
        a == b,
{
    a_padded_number_gives_back_its_number(a, width);
    a_padded_number_gives_back_its_number(b, width);
}

proof fn lemma_same_time(a: nat, b: nat)
    requires
        a / 3_600_000 == b / 3_600_000,
        (a % 3_600_000) / 60_000 == (b % 3_600_000) / 60_000,
        (a % 60_000) / 1000 == (b % 60_000) / 1000,
        a % 1000 == b % 1000,
    ensures
        a == b,
{
    assert((a % 3_600_000) % 60_000 == a % 60_000);
    assert((b % 3_600_000) % 60_000 == b % 60_000);
    assert((a % 60_000) % 1000 == a % 1000);
    assert((b % 60_000) % 1000 == b % 1000);
}

/// Two different times are written differently, whatever the mark.
pub proof fn different_times_are_written_differently(a: nat, b: nat, mark: Seq<char>)
    requires
        a != b,
    ensures
        clock_text(a, mark) != clock_text(b, mark),
{
    if clock_text(a, mark) == clock_text(b, mark) {
        lemma_clock_tail(a, mark);
        lemma_clock_tail(b, mark);
        lemma_same_parts(
            padded(a / 3_600_000, 2),
            clock_tail(a, mark),
            padded(b / 3_600_000, 2),
            clock_tail(b, mark),
        );
        lemma_same_padded(a / 3_600_000, b / 3_600_000, 2);
        lemma_same_padded((a % 3_600_000) / 60_000, (b % 3_600_000) / 60_000, 2);
        lemma_same_padded((a % 60_000) / 1000, (b % 60_000) / 1000, 2);
        lemma_same_padded(a % 1000, b % 1000, 3);
        lemma_same_time(a, b);
    }
}

/// A time of a WebVTT file is that of a SubRip file with a point for the comma, which is the
/// fourth character from the end.
pub proof fn a_vtt_time_is_the_srt_time_with_a_point(millis: nat)
    ensures
        clock_text(millis, ","@).len() >= 4,
        clock_text(millis, ","@)[clock_text(millis, ","@).len() - 4] == ',',
        clock_text(millis, "."@) == clock_text(millis, ","@).update(
            clock_text(millis, ","@).len() - 4,
            '.',
        ),
{
    reveal_strlit(",");
    reveal_strlit(".");
    lemma_padded_width(millis % 1000);
}

/// What a time says, read from its end: three digits of milliseconds, two of seconds and two of minutes,
/// each behind a mark, and the hours before them.
pub open spec fn read_clock(s: Seq<char>) -> int {
    number(s.take(s.len() - 10)) * 3_600_000 + number(s.subrange(s.len() - 9, s.len() - 7)) * 60_000
        + number(s.subrange(s.len() - 6, s.len() - 4)) * 1000 + number(s.skip(s.len() - 3))
}

proof fn lemma_clock_sum(m: nat)
    ensures
        (m / 3_600_000) * 3_600_000 + ((m % 3_600_000) / 60_000) * 60_000 + ((m % 60_000) / 1000)
            * 1000 + m % 1000 == m,
{
    assert((m % 3_600_000) % 60_000 == m % 60_000);
    assert((m % 60_000) % 1000 == m % 1000);
}

/// A time can be read back, and holds digits, colons and its mark only.
pub proof fn a_time_can_be_read_back(millis: nat, mark: char)
    ensures
        read_clock(clock_text(millis, seq![mark])) == millis,
        clock_text(millis, seq![mark]).len() >= 12,
        ({
            let s = clock_text(millis, seq![mark]);
            &&& s[s.len() - 4] == mark && s[s.len() - 7] == ':' && s[s.len() - 10] == ':'
            &&& forall|i: int| 0 <= i < s.len() ==> '0' <= #[trigger] s[i] <= '9' || s[i] == ':' || s[i]
                == mark
        }),
{
    reveal_strlit(":");
    let m = seq![mark];
    let s = clock_text(millis, m);
    let h = padded(millis / 3_600_000, 2);
    let t = clock_tail(millis, m);
    let b = padded((millis % 3_600_000) / 60_000, 2);
    let c = padded((millis % 60_000) / 1000, 2);
    let d = padded(millis % 1000, 3);
    lemma_clock_tail(millis, m);
    lemma_padded_width((millis % 3_600_000) / 60_000);
    lemma_padded_width((millis % 60_000) / 1000);
    lemma_padded_width(millis % 1000);
    a_padded_number_gives_back_its_number(millis / 3_600_000, 2);
    a_padded_number_gives_back_its_number((millis % 3_600_000) / 60_000, 2);
    a_padded_number_gives_back_its_number((millis % 60_000) / 1000, 2);
    a_padded_number_gives_back_its_number(millis % 1000, 3);
    a_padded_number_is_digits(millis / 3_600_000, 2);
    a_padded_number_is_digits((millis % 3_600_000) / 60_000, 2);
    a_padded_number_is_digits((millis % 60_000) / 1000, 2);
    a_padded_number_is_digits(millis % 1000, 3);
    assert(s.take(s.len() - 10) =~= h);
    assert(s.subrange(s.len() - 9, s.len() - 7) =~= t.subrange(1, 3));
    assert(s.subrange(s.len() - 6, s.len() - 4) =~= t.subrange(4, 6));
    assert(s.skip(s.len() - 3) =~= t.skip(7));
    lemma_clock_sum(millis);
    assert forall|i: int| 0 <= i < s.len() implies '0' <= #[trigger] s[i] <= '9' || s[i] == ':' || s[i]
        == mark by {
        let n = h.len() as int;
        if i < n {
            assert(s[i] == h[i]);
        } else {
            let j = i - n;
            assert(s[i] == t[j]);
            if 1 <= j < 3 {
                assert(t[j] == b[j - 1]);
            } else if 4 <= j < 6 {
                assert(t[j] == c[j - 4]);
            } else if j >= 7 {
                assert(t[j] == d[j - 7]);
            }
        }
    }
}

// ---------------------------------------------------------------------------
// Lines
// ---------------------------------------------------------------------------

/// The line of a segment, after its speaker where that is shown and known.
pub open spec fn segment_line(segment: SegmentView, with_speakers: bool) -> Seq<char> {
    let line = trim(segment.line);
    match label_of(segment.speaker_label) {
        Some(label) if with_speakers => label + ": "@ + line,
        _ => line,
    }
}

/// Writes the line of a segment.
pub fn render_export_segment_line(segment: &ExportSegment, include_speaker_names: bool) -> (r:
    String)
    ensures
        r@ == segment_line(segment@, include_speaker_names),
{
    let line: String = trim_text(segment.line.as_str());
    if !include_speaker_names {
        return line;
    }
    match normalized_export_speaker_label(segment) {
        Some(label) => cat3(label.as_str(), ": ", line.as_str()),
        None => line,
    }
}

/// The line of a segment, after its time where that is shown.
pub open spec fn timed_line(segment: SegmentView, with_times: bool, with_speakers: bool) -> Seq<char> {
    if with_times {
        "["@ + segment.time + "] "@ + segment_line(segment, with_speakers)
    } else {
        segment_line(segment, with_speakers)
    }
}

/// Writes the line of a segment, after its time where that is shown.
pub fn render_timed_line(
    segment: &ExportSegment,
    include_timestamps: bool,
    include_speaker_names: bool,
) -> (r: String)
    ensures
        r@ == timed_line(segment@, include_timestamps, include_speaker_names),
{
    let line: String = render_export_segment_line(segment, include_speaker_names);
    if include_timestamps {
        cat4("[", segment.time.as_str(), "] ", line.as_str())
    } else {
        line
    }
}

/// The lines of segments.
pub open spec fn timed_lines(segments: Seq<SegmentView>, with_times: bool, with_speakers: bool) -> Seq<
    Seq<char>,
> {
    Seq::new(segments.len(), |i: int| timed_line(segments[i], with_times, with_speakers))
}

fn write_timed_lines(segments: &Vec<ExportSegment>, with_times: bool, with_speakers: bool) -> (r:
    Vec<String>)
    ensures
        views(r@) == timed_lines(segment_views(segments@), with_times, with_speakers),
{
    let ghost all = segment_views(segments@);
    let mut out: Vec<String> = Vec::new();
    let mut i: usize = 0;
    while i < segments.len()
        invariant
            i <= segments@.len(),
            all == segment_views(segments@),
            views(out@) =~= timed_lines(all, with_times, with_speakers).take(i as int),
        decreases segments@.len() - i,
    {
        let ghost prior = views(out@);
        let line: String = render_timed_line(&segments[i], with_times, with_speakers);
        out.push(line);
        proof {
            assert(all[i as int] == segments@[i as int]@);
            assert(views(out@) =~= prior.push(line@));
        }
        i = i + 1;
    }
    assert(timed_lines(all, with_times, with_speakers).take(i as int) =~= timed_lines(
        all,
        with_times,
        with_speakers,
    ));
    out
}

/// A line says what a segment says, behind its speaker where speakers are shown and it has one.
pub open spec fn says(line: Seq<char>, segment: SegmentView, with_speakers: bool) -> bool {
    if with_speakers && segment.speaker_label is Some && inked(segment.speaker_label->0).len() > 0 {
        line == trim(segment.speaker_label->0) + seq![':', ' '] + trim(segment.line)
    } else {
        line == trim(segment.line)
    }
}

proof fn lemma_says(segment: SegmentView, with_speakers: bool)
    ensures
        says(segment_line(segment, with_speakers), segment, with_speakers),
        contains(segment_line(segment, with_speakers), trim(segment.line)),
{
    reveal_strlit(": ");
    let line = trim(segment.line);
    if segment.speaker_label is Some {
        let label = segment.speaker_label->0;
        trimming_takes_white_only(label);
        lemma_inked_edge(trim(label));
        assert(": "@ =~= seq![':', ' ']);
        lemma_contains_middle(trim(label) + ": "@, line, Seq::empty());
        assert(trim(label) + ": "@ + line + Seq::empty() =~= trim(label) + ": "@ + line);
    }
    lemma_contains_middle(Seq::empty(), line, Seq::empty());
    assert(Seq::<char>::empty() + line + Seq::empty() =~= line);
}

/// The lines that segments say, without their speakers.
pub open spec fn spoken(segments: Seq<SegmentView>) -> Seq<Seq<char>> {
    Seq::new(segments.len(), |i: int| trim(segments[i].line))
}

// ---------------------------------------------------------------------------
// Subtitles
// ---------------------------------------------------------------------------

/// A cue of a SubRip file.
pub open spec fn srt_cue(segments: Seq<SegmentView>, i: int, with_speakers: bool) -> Seq<char> {
    let t = timing(segments, i);
    decimal((i + 1) as nat) + "\n"@ + clock_text(t.start_millis as nat, ","@) + " --> "@ + clock_text(
        t.end_millis as nat,
        ","@,
    ) + "\n"@ + segment_line(segments[i], with_speakers)
}

/// The cues of a SubRip file.
pub open spec fn srt_cues(segments: Seq<SegmentView>, with_speakers: bool) -> Seq<Seq<char>> {
    Seq::new(segments.len(), |i: int| srt_cue(segments, i, with_speakers))
}

fn write_srt_cues(segments: &Vec<ExportSegment>, with_speakers: bool) -> (r: Vec<String>)
    ensures
        views(r@) == srt_cues(segment_views(segments@), with_speakers),
{
    let ghost all = segment_views(segments@);
    let times: Vec<ResolvedSegmentTiming> = resolve_segment_timings(segments);
    let mut out: Vec<String> = Vec::new();
    let mut i: usize = 0;
    while i < segments.len()
        invariant
            i <= segments@.len(),
            all == segment_views(segments@),
            times@ == timings(all),
            views(out@) =~= srt_cues(all, with_speakers).take(i as int),
        decreases segments@.len() - i,
    {
        let ghost prior = views(out@);
        let mut cue: String = String::new();
        let number: usize = i + 1;
        push_decimal(&mut cue, number as u64);
        assert(cue@ =~= decimal((i + 1) as nat));
        cue.append("\n");
        cue.append(format_srt_time(times[i].start_millis).as_str());
        cue.append(" --> ");
        cue.append(format_srt_time(times[i].end_millis).as_str());
        cue.append("\n");
        cue.append(render_export_segment_line(&segments[i], with_speakers).as_str());
        out.push(cue);
        proof {
            assert(all[i as int] == segments@[i as int]@);
            assert(times@[i as int] == timing(all, i as int));
            assert(cue@ == srt_cue(all, i as int, with_speakers));
            assert(views(out@) =~= prior.push(cue@));
        }
        i = i + 1;
    }
    assert(srt_cues(all, with_speakers).take(i as int) =~= srt_cues(all, with_speakers));
    out
}

/// A cue of a WebVTT file.
pub open spec fn vtt_cue(segments: Seq<SegmentView>, i: int, with_speakers: bool) -> Seq<char> {
    let t = timing(segments, i);
    clock_text(t.start_millis as nat, "."@) + " --> "@ + clock_text(t.end_millis as nat, "."@)
        + "\n"@ + segment_line(segments[i], with_speakers)
}

/// The content of a WebVTT file.
pub open spec fn vtt_text(segments: Seq<SegmentView>, text: Seq<char>, with_speakers: bool) -> Seq<
    char,
> {
    "WEBVTT\n\n"@ + (if segments.len() == 0 {
        trim(text)
    } else {
        join(Seq::new(segments.len(), |i: int| vtt_cue(segments, i, with_speakers)), "\n\n"@)
    })
}

/// Writes the content of a WebVTT file.
pub fn build_vtt_content(
    segments: &Vec<ExportSegment>,
    transcription: &str,
    include_speaker_names: bool,
) -> (r: String)
    ensures
        r@ == vtt_text(segment_views(segments@), transcription@, include_speaker_names),
{
    let ghost all = segment_views(segments@);
    assert(all.len() == segments@.len());
    let mut out: String = "WEBVTT\n\n".to_owned();
    if segments.len() == 0 {
        out.append(trim_text(transcription).as_str());
        return out;
    }
    let ghost want = Seq::new(all.len(), |i: int| vtt_cue(all, i, include_speaker_names));
    let times: Vec<ResolvedSegmentTiming> = resolve_segment_timings(segments);
    let mut cues: Vec<String> = Vec::new();
    let mut i: usize = 0;
    while i < segments.len()
        invariant
            i <= segments@.len(),
            all == segment_views(segments@),
            times@ == timings(all),
            want == Seq::new(all.len(), |i: int| vtt_cue(all, i, include_speaker_names)),
            views(cues@) =~= want.take(i as int),
        decreases segments@.len() - i,
    {
        let ghost prior = views(cues@);
        let mut cue: String = format_vtt_time(times[i].start_millis);
        cue.append(" --> ");
        cue.append(format_vtt_time(times[i].end_millis).as_str());
        cue.append("\n");
        cue.append(render_export_segment_line(&segments[i], include_speaker_names).as_str());
        cues.push(cue);
        proof {
            assert(all[i as int] == segments@[i as int]@);
            assert(times@[i as int] == timing(all, i as int));
            assert(cue@ == vtt_cue(all, i as int, include_speaker_names));
            assert(views(cues@) =~= prior.push(cue@));
        }
        i = i + 1;
    }
    assert(want.take(i as int) =~= want);
    out.append(join_texts(&cues, "\n\n").as_str());
    out
}

/// What stands in a cue behind its number: when it is shown, read off its first line, and what it says.
/// Nothing is read where the two times, with this mark, and the arrow between them are not there.
pub open spec fn read_shown(cue: Seq<char>, mark: char) -> Option<(int, int, Seq<char>)> {
    let end = lead_until(cue, '\n') as int;
    let times = cue.take(end);
    let gap = lead_until(times, ' ') as int;
    let first = times.take(gap);
    let second = times.skip(gap + 5);
    if end < cue.len() && gap + 5 <= times.len() && times.subrange(gap, gap + 5) == seq![
        ' ',
        '-',
        '-',
        '>',
        ' ',
    ] && first.len() >= 12 && first[first.len() - 4] == mark && second.len() >= 12 && second[second.len()
        - 4] == mark {
        Some((read_clock(first), read_clock(second), cue.skip(end + 1)))
    } else {
        None
    }
}

/// What a cue of a SubRip file says: its number, when it is shown and its line.
pub open spec fn read_cue(cue: Seq<char>) -> Option<(int, int, int, Seq<char>)> {
    let end = lead_until(cue, '\n') as int;
    match read_shown(cue.skip(end + 1), ',') {
        Some((start, stop, line)) if end < cue.len() => Some(
            (number(cue.take(end)) as int, start, stop, line),
        ),
        _ => None,
    }
}

proof fn lemma_times(a: Seq<char>, b: Seq<char>, c: char)
    requires
        !a.contains(c),
        !b.contains(c),
        c == '\n',
    ensures
        !(a + seq![' ', '-', '-', '>', ' '] + b).contains(c),
{
    let times = a + seq![' ', '-', '-', '>', ' '] + b;
    assert forall|i: int| 0 <= i < times.len() implies times[i] != c by {
        if i < a.len() {
            assert(times[i] == a[i]);
            assert(a.contains(a[i]));
        } else if i >= a.len() + 5 {
            assert(times[i] == b[i - a.len() - 5]);
            assert(b.contains(b[i - a.len() - 5]));
        }
    }
}

proof fn lemma_read_shown(a: Seq<char>, b: Seq<char>, mark: char, line: Seq<char>)
    requires
        !a.contains('\n'),
        !b.contains('\n'),
        !a.contains(' '),
        a.len() >= 12,
        a[a.len() - 4] == mark,
        b.len() >= 12,
        b[b.len() - 4] == mark,
    ensures
        read_shown(a + seq![' ', '-', '-', '>', ' '] + b + seq!['\n'] + line, mark) == Some(
            (read_clock(a), read_clock(b), line),
        ),
{
    let times = a + seq![' ', '-', '-', '>', ' '] + b;
    lemma_times(a, b, '\n');
    lemma_lead_until_at(times, '\n', line);
    let rest = seq!['-', '-', '>', ' '] + b;
    assert(times =~= a + seq![' '] + rest);
    lemma_lead_until_at(a, ' ', rest);
    let gap = a.len() as int;
    assert(times.skip(gap + 5) =~= b);
    assert(times.subrange(gap, gap + 5) =~= seq![' ', '-', '-', '>', ' ']);
}

proof fn lemma_shown(start: nat, stop: nat, mark: char, line: Seq<char>)
    requires
        mark == ',' || mark == '.',
    ensures
        read_shown(
            clock_text(start, seq![mark]) + " --> "@ + clock_text(stop, seq![mark]) + "\n"@ + line,
            mark,
        ) == Some((start as int, stop as int, line)),
{
    let a = clock_text(start, seq![mark]);
    let b = clock_text(stop, seq![mark]);
    assert(" --> "@ =~= seq![' ', '-', '-', '>', ' ']) by {
        reveal_strlit(" --> ");
    }
    assert("\n"@ =~= seq!['\n']) by {
        reveal_strlit("\n");
    }
    a_time_can_be_read_back(start, mark);
    a_time_can_be_read_back(stop, mark);
    lemma_read_shown(a, b, mark, line);
}

proof fn lemma_srt_cue(segments: Seq<SegmentView>, i: int, with_speakers: bool)
    requires
        0 <= i < segments.len(),
    ensures
        read_cue(srt_cue(segments, i, with_speakers)) == Some(
            (
                i + 1,
                timing(segments, i).start_millis as int,
                timing(segments, i).end_millis as int,
                segment_line(segments[i], with_speakers),
            ),
        ),
        contains(srt_cue(segments, i, with_speakers), trim(segments[i].line)),
{
    reveal_strlit("\n");
    reveal_strlit(",");
    let t = timing(segments, i);
    let n = decimal((i + 1) as nat);
    let a = clock_text(t.start_millis as nat, ","@);
    let b = clock_text(t.end_millis as nat, ","@);
    let line = segment_line(segments[i], with_speakers);
    let cue = srt_cue(segments, i, with_speakers);
    let rest = a + " --> "@ + b + "\n"@ + line;
    assert("\n"@ =~= seq!['\n']);
    assert(","@ =~= seq![',']);
    assert(cue =~= n + seq!['\n'] + rest);
    a_decimal_gives_back_its_number((i + 1) as nat);
    a_padded_number_is_digits((i + 1) as nat, 0);
    assert(padded((i + 1) as nat, 0) =~= n);
    assert forall|k: int| 0 <= k < n.len() implies n[k] != '\n' by {}
    assert(!n.contains('\n'));
    lemma_lead_until_at(n, '\n', rest);
    lemma_shown(t.start_millis as nat, t.end_millis as nat, ',', line);
    lemma_says(segments[i], with_speakers);
    let head = n + "\n"@ + a + " --> "@ + b + "\n"@;
    assert(cue =~= head + line + Seq::empty());
    crate::text::lemma_contains_around(head, line, Seq::empty(), trim(segments[i].line));
}

/// Subtitles give back the segments: the file is one cue for each segment, in order and with an empty
/// line between two, and a cue read back has the segment's number, its start, its end and its line. A
/// start that is known is the one that is written.
pub proof fn subtitles_give_back_the_segments(
    text: Seq<char>,
    segments: Seq<SegmentView>,
    with_times: bool,
    with_speakers: bool,
) -> (cues: Seq<Seq<char>>)
    requires
        segments.len() > 0,
    ensures
        ({
            let file = content(text, segments, ExportStyle::Subtitles, with_times, with_speakers);
            &&& cues.len() == segments.len()
            &&& in_order(file, cues)
            &&& file.len() == total_len(cues) + 2 * (segments.len() - 1)
            &&& in_order(file, spoken(segments))
        }),
        forall|i: int|
            0 <= i < segments.len() ==> {
                &&& read_cue(#[trigger] cues[i]) is Some
                &&& ({
                    let (number, start, stop, line) = read_cue(cues[i])->0;
                    &&& number == i + 1
                    &&& start == timings(segments)[i].start_millis
                    &&& stop == timings(segments)[i].end_millis
                    &&& segments[i].start is Some ==> start == segments[i].start->0.millis
                    &&& segments[i].start is None ==> start == segments[i].label_start.millis
                    &&& says(line, segments[i], with_speakers)
                })
            },
{
    let cues = srt_cues(segments, with_speakers);
    let file = content(text, segments, ExportStyle::Subtitles, with_times, with_speakers);
    reveal_strlit("\n\n");
    a_join_holds_its_parts_in_order(cues, "\n\n"@);
    assert forall|i: int| 0 <= i < segments.len() implies ({
        &&& read_cue(#[trigger] cues[i]) is Some
        &&& ({
            let (number, start, stop, line) = read_cue(cues[i])->0;
            &&& number == i + 1
            &&& start == timings(segments)[i].start_millis
            &&& stop == timings(segments)[i].end_millis
            &&& segments[i].start is Some ==> start == segments[i].start->0.millis
            &&& segments[i].start is None ==> start == segments[i].label_start.millis
            &&& says(line, segments[i], with_speakers)
        })
    }) by {
        lemma_srt_cue(segments, i, with_speakers);
        lemma_says(segments[i], with_speakers);
    }
    assert forall|i: int| 0 <= i < cues.len() implies contains(
        #[trigger] cues[i],
        spoken(segments)[i],
    ) by {
        lemma_srt_cue(segments, i, with_speakers);
    }
    lemma_in_order_inside(file, cues, spoken(segments));
    cues
}

/// A WebVTT file gives back the segments as well, behind its heading.
pub proof fn vtt_gives_back_the_segments(
    segments: Seq<SegmentView>,
    text: Seq<char>,
    with_speakers: bool,
) -> (cues: Seq<Seq<char>>)
    requires
        segments.len() > 0,
    ensures
        ({
            let file = vtt_text(segments, text, with_speakers);
            let heading = seq!['W', 'E', 'B', 'V', 'T', 'T', '\n', '\n'];
            &&& cues.len() == segments.len()
            &&& starts_with(file, heading)
            &&& in_order(file.skip(8), cues)
            &&& file.len() == 8 + total_len(cues) + 2 * (segments.len() - 1)
        }),
        forall|i: int|
            0 <= i < segments.len() ==> {
                &&& read_shown(#[trigger] cues[i], '.') is Some
                &&& ({
                    let (start, stop, line) = read_shown(cues[i], '.')->0;
                    &&& start == timings(segments)[i].start_millis
                    &&& stop == timings(segments)[i].end_millis
                    &&& says(line, segments[i], with_speakers)
                })
            },
{
    let cues = Seq::new(segments.len(), |i: int| vtt_cue(segments, i, with_speakers));
    let file = vtt_text(segments, text, with_speakers);
    reveal_strlit("WEBVTT\n\n");
    reveal_strlit("\n\n");
    reveal_strlit(".");
    assert("."@ =~= seq!['.']);
    a_join_holds_its_parts_in_order(cues, "\n\n"@);
    assert(file.skip(8) =~= join(cues, "\n\n"@));
    assert(file.take(8) =~= seq!['W', 'E', 'B', 'V', 'T', 'T', '\n', '\n']);
    assert forall|i: int| 0 <= i < segments.len() implies ({
        &&& read_shown(#[trigger] cues[i], '.') is Some
        &&& ({
            let (start, stop, line) = read_shown(cues[i], '.')->0;
            &&& start == timings(segments)[i].start_millis
            &&& stop == timings(segments)[i].end_millis
            &&& says(line, segments[i], with_speakers)
        })
    }) by {
        let t = timing(segments, i);
        lemma_shown(
            t.start_millis as nat,
            t.end_millis as nat,
            '.',
            segment_line(segments[i], with_speakers),
        );
        lemma_says(segments[i], with_speakers);
    }
    cues
}

/// Subtitles as text: each line over its time.
pub open spec fn markdown_subtitles(
    segments: Seq<SegmentView>,
    text: Seq<char>,
    with_speakers: bool,
) -> Seq<char> {
    if segments.len() == 0 {
        trim(text)
    } else {
        join(
            Seq::new(
                segments.len(),
                |i: int| segment_line(segments[i], with_speakers) + "\n"@ + segments[i].time,
            ),
            "\n\n"@,
        )
    }
}

/// Writes subtitles as text.
pub fn build_markdown_subtitles_content(
    segments: &Vec<ExportSegment>,
    transcription: &str,
    include_speaker_names: bool,
) -> (r: String)
    ensures
        r@ == markdown_subtitles(segment_views(segments@), transcription@, include_speaker_names),
{
    let ghost all = segment_views(segments@);
    assert(all.len() == segments@.len());
    if segments.len() == 0 {
        return trim_text(transcription);
    }
    let ghost want = Seq::new(
        all.len(),
        |i: int| segment_line(all[i], include_speaker_names) + "\n"@ + all[i].time,
    );
    let mut parts: Vec<String> = Vec::new();
    let mut i: usize = 0;
    while i < segments.len()
        invariant
            i <= segments@.len(),
            all == segment_views(segments@),
            want == Seq::new(
                all.len(),
                |i: int| segment_line(all[i], include_speaker_names) + "\n"@ + all[i].time,
            ),
            views(parts@) =~= want.take(i as int),
        decreases segments@.len() - i,
    {
        let ghost prior = views(parts@);
        let part: String = cat3(
            render_export_segment_line(&segments[i], include_speaker_names).as_str(),
            "\n",
            segments[i].time.as_str(),
        );
        parts.push(part);
        proof {
            assert(all[i as int] == segments@[i as int]@);
            assert(want[i as int] == part@);
            assert(views(parts@) =~= prior.push(part@));
        }
        i = i + 1;
    }
    assert(want.take(i as int) =~= want);
    join_texts(&parts, "\n\n")
}

// ---------------------------------------------------------------------------
// The content of a style
// ---------------------------------------------------------------------------

/// The content of an export in a style.
pub open spec fn content(
    text: Seq<char>,
    segments: Seq<SegmentView>,
    style: ExportStyle,
    with_times: bool,
    with_speakers: bool,
) -> Seq<char> {
    if segments.len() == 0 || (style == ExportStyle::Transcript && !with_times) {
        trim(text)
    } else if style == ExportStyle::Subtitles {
        join(srt_cues(segments, with_speakers), "\n\n"@)
    } else {
        join(timed_lines(segments, with_times, with_speakers), "\n"@)
    }
}

/// Writes the content of an export in a style.
pub fn build_export_content(
    transcription: &str,
    segments: &Vec<ExportSegment>,
    style: ExportStyle,
    include_timestamps: bool,
    include_speaker_names: bool,
) -> (r: String)
    ensures
        r@ == content(
            transcription@,
            segment_views(segments@),
            style,
            include_timestamps,
            include_speaker_names,
        ),
{
    assert(segment_views(segments@).len() == segments@.len());
    if segments.len() == 0 || (style == ExportStyle::Transcript && !include_timestamps) {
        return trim_text(transcription);
    }
    if style == ExportStyle::Subtitles {
        return join_texts(&write_srt_cues(segments, include_speaker_names), "\n\n");
    }
    join_texts(&write_timed_lines(segments, include_timestamps, include_speaker_names), "\n")
}

/// Subtitles as text show each segment's line, and its time on the line below, in order.
pub proof fn subtitles_as_text_show_every_line(
    segments: Seq<SegmentView>,
    text: Seq<char>,
    with_speakers: bool,
) -> (parts: Seq<Seq<char>>)
    requires
        segments.len() > 0,
    ensures
        parts.len() == segments.len(),
        in_order(markdown_subtitles(segments, text, with_speakers), parts),
        markdown_subtitles(segments, text, with_speakers).len() == total_len(parts) + 2 * (
        segments.len() - 1),
        forall|i: int|
            0 <= i < segments.len() ==> {
                let n = (#[trigger] parts[i]).len() - segments[i].time.len();
                &&& n >= 1
                &&& parts[i].skip(n) == segments[i].time
                &&& parts[i][n - 1] == '\n'
                &&& says(parts[i].take(n - 1), segments[i], with_speakers)
            },
{
    let parts = Seq::new(
        segments.len(),
        |i: int| segment_line(segments[i], with_speakers) + "\n"@ + segments[i].time,
    );
    reveal_strlit("\n\n");
    reveal_strlit("\n");
    a_join_holds_its_parts_in_order(parts, "\n\n"@);
    assert forall|i: int| 0 <= i < segments.len() implies ({
        let n = (#[trigger] parts[i]).len() - segments[i].time.len();
        &&& n >= 1
        &&& parts[i].skip(n) == segments[i].time
        &&& parts[i][n - 1] == '\n'
        &&& says(parts[i].take(n - 1), segments[i], with_speakers)
    }) by {
        let line = segment_line(segments[i], with_speakers);
        let n = parts[i].len() - segments[i].time.len();
        lemma_says(segments[i], with_speakers);
        assert(parts[i].skip(n) =~= segments[i].time);
        assert(parts[i].take(n - 1) =~= line);
    }
    parts
}

/// A style that shows segments line by line shows one line for each, in order, behind its time in
/// brackets where times are shown; the transcript without times is the text itself.
pub proof fn lines_show_every_segment(
    text: Seq<char>,
    segments: Seq<SegmentView>,
    style: ExportStyle,
    with_times: bool,
    with_speakers: bool,
) -> (parts: Seq<Seq<char>>)
    requires
        style != ExportStyle::Subtitles,
    ensures
        ({
            let shown = content(text, segments, style, with_times, with_speakers);
            &&& segments.len() == 0 ==> inked(shown) == inked(text)
            &&& style == ExportStyle::Transcript && !with_times ==> inked(shown) == inked(text)
            &&& segments.len() > 0 && (with_times || style != ExportStyle::Transcript) ==> {
                &&& parts.len() == segments.len()
                &&& in_order(shown, parts)
                &&& shown.len() == total_len(parts) + segments.len() - 1
            }
        }),
        parts.len() == segments.len(),
        forall|i: int|
            0 <= i < segments.len() && !with_times ==> says(
                #[trigger] parts[i],
                segments[i],
                with_speakers,
            ),
        forall|i: int|
            0 <= i < segments.len() && with_times ==> {
                let head = seq!['['] + segments[i].time + seq![']', ' '];
                &&& starts_with(#[trigger] parts[i], head)
                &&& says(parts[i].skip(head.len() as int), segments[i], with_speakers)
            },
{
    let parts = timed_lines(segments, with_times, with_speakers);
    reveal_strlit("\n");
    reveal_strlit("[");
    reveal_strlit("] ");
    a_join_holds_its_parts_in_order(parts, "\n"@);
    trimming_takes_white_only(text);
    assert forall|i: int| 0 <= i < segments.len() && !with_times implies says(
        #[trigger] parts[i],
        segments[i],
        with_speakers,
    ) by {
        lemma_says(segments[i], with_speakers);
    }
    assert forall|i: int| 0 <= i < segments.len() && with_times implies ({
        let head = seq!['['] + segments[i].time + seq![']', ' '];
        &&& starts_with(#[trigger] parts[i], head)
        &&& says(parts[i].skip(head.len() as int), segments[i], with_speakers)
    }) by {
        let head = seq!['['] + segments[i].time + seq![']', ' '];
        lemma_says(segments[i], with_speakers);
        assert(parts[i].take(head.len() as int) =~= head);
        assert(parts[i].skip(head.len() as int) =~= segment_line(segments[i], with_speakers));
    }
    parts
}

// ---------------------------------------------------------------------------
// Tables
// ---------------------------------------------------------------------------

/// A text with every quote doubled.
pub open spec fn doubled_quotes(value: Seq<char>) -> Seq<char>
    decreases value.len(),
{
    if value.len() == 0 {
        Seq::empty()
    } else if value.last() == '"' {
        doubled_quotes(value.drop_last()).push('"').push('"')
    } else {
        doubled_quotes(value.drop_last()).push(value.last())
    }
}

/// A cell of a table.
pub open spec fn csv_cell(value: Seq<char>) -> Seq<char> {
    seq!['"'] + doubled_quotes(value) + seq!['"']
}

/// Writes a cell of a table: in quotes, and with the quotes in it doubled.
pub fn quote_csv_cell(value: &str) -> (r: String)
    ensures
        r@ == csv_cell(value@),
{
    let v: Vec<char> = chars_of(value);
    let mut out: String = String::new();
    push_char(&mut out, '"');
    let mut i: usize = 0;
    while i < v.len()
        invariant
            i <= v@.len(),
            out@ =~= seq!['"'] + doubled_quotes(v@.take(i as int)),
        decreases v@.len() - i,
    {
        assert(v@.take(i + 1).drop_last() =~= v@.take(i as int));
        if v[i] == '"' {
            push_char(&mut out, '"');
        }
        push_char(&mut out, v[i]);
        i = i + 1;
    }
    assert(v@.take(i as int) =~= v@);
    push_char(&mut out, '"');
    assert(out@ =~= csv_cell(v@));
    out
}

/// What a cell holds: what stands between its quotes, with every pair of quotes taken as one.
pub open spec fn undoubled(s: Seq<char>) -> Seq<char>
    decreases s.len(),
{
    if s.len() == 0 {
        Seq::empty()
    } else if s.len() >= 2 && s.last() == '"' && s[s.len() - 2] == '"' {
        undoubled(s.take(s.len() - 2)).push('"')
    } else {
        undoubled(s.drop_last()).push(s.last())
    }
}

proof fn lemma_doubled_quotes(value: Seq<char>)
    ensures
        undoubled(doubled_quotes(value)) == value,
    decreases value.len(),
{
    if value.len() > 0 {
        let front = value.drop_last();
        lemma_doubled_quotes(front);
        let d = doubled_quotes(front);
        if value.last() == '"' {
            assert(d.push('"').push('"').take(d.len() as int) =~= d);
            assert(undoubled(doubled_quotes(value)) =~= front.push('"'));
        } else {
            assert(d.push(value.last()).drop_last() =~= d);
        }
        assert(front.push(value.last()) =~= value);
    } else {
        assert(undoubled(doubled_quotes(value)) =~= value);
    }
}

/// A cell gives back the text that it was made of.
pub proof fn a_cell_gives_back_its_text(value: Seq<char>)
    ensures
        csv_cell(value)[0] == '"',
        csv_cell(value).last() == '"',
        undoubled(csv_cell(value).subrange(1, csv_cell(value).len() - 1)) == value,
{
    lemma_doubled_quotes(value);
    assert(csv_cell(value).subrange(1, csv_cell(value).len() - 1) =~= doubled_quotes(value));
}

/// The heading of a table.
pub open spec fn csv_header(language: Seq<char>, with_speakers: bool) -> Seq<char> {
    if language == "it"@ {
        if with_speakers {
            "Timestamp inizio;Timestamp fine;Trascrizione;Speaker"@
        } else {
            "Timestamp inizio;Timestamp fine;Trascrizione"@
        }
    } else if language == "es"@ {
        if with_speakers {
            "Marca de tiempo inicial;Marca de tiempo final;Transcripción;Hablante"@
        } else {
            "Marca de tiempo inicial;Marca de tiempo final;Transcripción"@
        }
    } else if language == "de"@ {
        if with_speakers {
            "Start-Zeitstempel;End-Zeitstempel;Transkript;Sprecher"@
        } else {
            "Start-Zeitstempel;End-Zeitstempel;Transkript"@
        }
    } else {
        if with_speakers {
            "Start Timestamp;End Timestamp;Transcript;Speaker"@
        } else {
            "Start Timestamp;End Timestamp;Transcript"@
        }
    }
}

/// The names of the columns of a table; the last one is there with speakers only.
pub open spec fn csv_columns(language: Seq<char>) -> Seq<Seq<char>> {
    if language == "it"@ {
        seq!["Timestamp inizio"@, "Timestamp fine"@, "Trascrizione"@, "Speaker"@]
    } else if language == "es"@ {
        seq!["Marca de tiempo inicial"@, "Marca de tiempo final"@, "Transcripción"@, "Hablante"@]
    } else if language == "de"@ {
        seq!["Start-Zeitstempel"@, "End-Zeitstempel"@, "Transkript"@, "Sprecher"@]
    } else {
        seq!["Start Timestamp"@, "End Timestamp"@, "Transcript"@, "Speaker"@]
    }
}

proof fn lemma_columns_joined(columns: Seq<Seq<char>>)
    requires
        columns.len() == 4,
    ensures
        join(columns.take(3), ";"@) == columns[0] + ";"@ + columns[1] + ";"@ + columns[2],
        join(columns.take(4), ";"@) == columns[0] + ";"@ + columns[1] + ";"@ + columns[2] + ";"@
            + columns[3],
{
    reveal_with_fuel(join, 5);
    assert(columns.take(4).drop_last() =~= columns.take(3));
    assert(columns.take(3).drop_last() =~= columns.take(2));
    assert(columns.take(2).drop_last() =~= columns.take(1));
}

proof fn lemma_italian_columns()
    ensures
        ({
            let start = "Timestamp inizio"@ + ";"@ + "Timestamp fine"@ + ";"@ + "Trascrizione"@;
            &&& "Timestamp inizio;Timestamp fine;Trascrizione"@ == start
            &&& "Timestamp inizio;Timestamp fine;Trascrizione;Speaker"@ == start + ";"@ + "Speaker"@
        }),
        !"Timestamp inizio"@.contains(';'),
        !"Timestamp fine"@.contains(';'),
        !"Trascrizione"@.contains(';'),
        !"Speaker"@.contains(';'),
{
    reveal_strlit("Timestamp inizio;Timestamp fine;Trascrizione;Speaker");
    reveal_strlit("Timestamp inizio;Timestamp fine;Trascrizione");
    reveal_strlit("Timestamp inizio");
    reveal_strlit("Timestamp fine");
    reveal_strlit("Trascrizione");
    reveal_strlit("Speaker");
    reveal_strlit(";");
}

proof fn lemma_spanish_columns()
    ensures
        ({
            let start = "Marca de tiempo inicial"@ + ";"@ + "Marca de tiempo final"@ + ";"@
                + "Transcripción"@;
            &&& "Marca de tiempo inicial;Marca de tiempo final;Transcripción"@ == start
            &&& "Marca de tiempo inicial;Marca de tiempo final;Transcripción;Hablante"@ == start
                + ";"@ + "Hablante"@
        }),
        !"Marca de tiempo inicial"@.contains(';'),
        !"Marca de tiempo final"@.contains(';'),
        !"Transcripción"@.contains(';'),
        !"Hablante"@.contains(';'),
{
    reveal_strlit("Marca de tiempo inicial;Marca de tiempo final;Transcripción;Hablante");
    reveal_strlit("Marca de tiempo inicial;Marca de tiempo final;Transcripción");
    reveal_strlit("Marca de tiempo inicial");
    reveal_strlit("Marca de tiempo final");
    reveal_strlit("Transcripción");
    reveal_strlit("Hablante");
    reveal_strlit(";");
}

proof fn lemma_german_columns()
    ensures
        ({
            let start = "Start-Zeitstempel"@ + ";"@ + "End-Zeitstempel"@ + ";"@ + "Transkript"@;
            &&& "Start-Zeitstempel;End-Zeitstempel;Transkript"@ == start
            &&& "Start-Zeitstempel;End-Zeitstempel;Transkript;Sprecher"@ == start + ";"@
                + "Sprecher"@
        }),
        !"Start-Zeitstempel"@.contains(';'),
        !"End-Zeitstempel"@.contains(';'),
        !"Transkript"@.contains(';'),
        !"Sprecher"@.contains(';'),
{
    reveal_strlit("Start-Zeitstempel;End-Zeitstempel;Transkript;Sprecher");
    reveal_strlit("Start-Zeitstempel;End-Zeitstempel;Transkript");
    reveal_strlit("Start-Zeitstempel");
    reveal_strlit("End-Zeitstempel");
    reveal_strlit("Transkript");
    reveal_strlit("Sprecher");
    reveal_strlit(";");
}

proof fn lemma_english_columns()
    ensures
        ({
            let start = "Start Timestamp"@ + ";"@ + "End Timestamp"@ + ";"@ + "Transcript"@;
            &&& "Start Timestamp;End Timestamp;Transcript"@ == start
            &&& "Start Timestamp;End Timestamp;Transcript;Speaker"@ == start + ";"@ + "Speaker"@
        }),
        !"Start Timestamp"@.contains(';'),
        !"End Timestamp"@.contains(';'),
        !"Transcript"@.contains(';'),
        !"Speaker"@.contains(';'),
{
    reveal_strlit("Start Timestamp;End Timestamp;Transcript;Speaker");
    reveal_strlit("Start Timestamp;End Timestamp;Transcript");
    reveal_strlit("Start Timestamp");
    reveal_strlit("End Timestamp");
    reveal_strlit("Transcript");
    reveal_strlit("Speaker");
    reveal_strlit(";");
}

/// The heading of a table names three columns, and a fourth one with speakers: semicolons stand
/// between the names and nowhere else.
pub proof fn csv_header_names_its_columns(language: Seq<char>, with_speakers: bool)
    ensures
        csv_columns(language).len() == 4,
        csv_header(language, with_speakers) == join(
            csv_columns(language).take(if with_speakers { 4 } else { 3 }),
            ";"@,
        ),
        forall|k: int| 0 <= k < 4 ==> !(#[trigger] csv_columns(language)[k]).contains(';'),
{
    lemma_columns_joined(csv_columns(language));
    lemma_italian_columns();
    lemma_spanish_columns();
    lemma_german_columns();
    lemma_english_columns();
}

/// Gives the heading of a table.
pub fn localized_export_csv_header(language: &str, include_speaker_names: bool) -> (r: &'static str)
    ensures
        r@ == csv_header(language@, include_speaker_names),
{
    if same_text(language, "it") {
        if include_speaker_names {
            "Timestamp inizio;Timestamp fine;Trascrizione;Speaker"
        } else {
            "Timestamp inizio;Timestamp fine;Trascrizione"
        }
    } else if same_text(language, "es") {
        if include_speaker_names {
            "Marca de tiempo inicial;Marca de tiempo final;Transcripción;Hablante"
        } else {
            "Marca de tiempo inicial;Marca de tiempo final;Transcripción"
        }
    } else if same_text(language, "de") {
        if include_speaker_names {
            "Start-Zeitstempel;End-Zeitstempel;Transkript;Sprecher"
        } else {
            "Start-Zeitstempel;End-Zeitstempel;Transkript"
        }
    } else {
        if include_speaker_names {
            "Start Timestamp;End Timestamp;Transcript;Speaker"
        } else {
            "Start Timestamp;End Timestamp;Transcript"
        }
    }
}

/// A row of a table: when a segment is shown, its line and its speaker.
pub open spec fn csv_row(segments: Seq<SegmentView>, i: int, with_speakers: bool) -> Seq<char> {
    let t = timing(segments, i);
    let base = mm_ss((t.start_millis / 1000) as nat) + ";"@ + mm_ss((t.end_millis / 1000) as nat)
        + ";"@ + csv_cell(trim(segments[i].line));
    if with_speakers {
        base + ";"@ + csv_cell(
            match label_of(segments[i].speaker_label) {
                Some(label) => label,
                None => Seq::empty(),
            },
        )
    } else {
        base
    }
}

/// The rows of a table; one without content when there are no segments.
pub open spec fn csv_rows(segments: Seq<SegmentView>, with_speakers: bool) -> Seq<Seq<char>> {
    if segments.len() == 0 {
        seq![
            if with_speakers {
                "00:00;00:00;\"\";\"\""@
            } else {
                "00:00;00:00;\"\""@
            },
        ]
    } else {
        Seq::new(segments.len(), |i: int| csv_row(segments, i, with_speakers))
    }
}

/// The content of a table.
pub open spec fn csv_text(language: Seq<char>, segments: Seq<SegmentView>, with_speakers: bool) -> Seq<
    char,
> {
    csv_header(language, with_speakers) + "\n"@ + join(csv_rows(segments, with_speakers), "\n"@)
}

/// Writes the segments as a table.
pub fn render_csv_content(
    language: &str,
    segments: &Vec<ExportSegment>,
    include_speaker_names: bool,
) -> (r: String)
    ensures
        r@ == csv_text(language@, segment_views(segments@), include_speaker_names),
{
    let ghost all = segment_views(segments@);
    assert(all.len() == segments@.len());
    let mut rows: Vec<String> = Vec::new();
    if segments.len() == 0 {
        if include_speaker_names {
            rows.push("00:00;00:00;\"\";\"\"".to_owned());
        } else {
            rows.push("00:00;00:00;\"\"".to_owned());
        }
    } else {
        let times: Vec<ResolvedSegmentTiming> = resolve_segment_timings(segments);
        let mut i: usize = 0;
        while i < segments.len()
            invariant
                i <= segments@.len(),
                all == segment_views(segments@),
                all.len() > 0,
                times@ == timings(all),
                views(rows@) =~= csv_rows(all, include_speaker_names).take(i as int),
            decreases segments@.len() - i,
        {
            let ghost prior = views(rows@);
            let mut row: String = format_mm_ss_millis(times[i].start_millis);
            row.append(";");
            row.append(format_mm_ss_millis(times[i].end_millis).as_str());
            row.append(";");
            row.append(quote_csv_cell(trim_text(segments[i].line.as_str()).as_str()).as_str());
            if include_speaker_names {
                let speaker: String = match normalized_export_speaker_label(&segments[i]) {
                    Some(label) => label,
                    None => String::new(),
                };
                row.append(";");
                row.append(quote_csv_cell(speaker.as_str()).as_str());
                assert(label_of(segments@[i as int]@.speaker_label) is None ==> speaker@
                    =~= Seq::<char>::empty());
            }
            rows.push(row);
            proof {
                assert(all[i as int] == segments@[i as int]@);
                assert(times@[i as int] == timing(all, i as int));
                assert(row@ == csv_row(all, i as int, include_speaker_names));
                assert(views(rows@) =~= prior.push(row@));
            }
            i = i + 1;
        }
    }
    assert(views(rows@) =~= csv_rows(all, include_speaker_names));
    cat3(
        localized_export_csv_header(language, include_speaker_names),
        "\n",
        join_texts(&rows, "\n").as_str(),
    )
}

/// What a row of a table says: from when to when in seconds, and the cells behind that. Nothing is
/// read where a column is missing.
pub open spec fn read_row(row: Seq<char>) -> Option<(int, int, Seq<char>)> {
    let a = lead_until(row, ';') as int;
    let rest = row.skip(a + 1);
    let b = lead_until(rest, ';') as int;
    if a < row.len() && b < rest.len() {
        Some((read_mm_ss(row.take(a)), read_mm_ss(rest.take(b)), rest.skip(b + 1)))
    } else {
        None
    }
}

/// What a quoted cell holds.
pub open spec fn read_cell(cell: Seq<char>) -> Seq<char> {
    undoubled(cell.subrange(1, cell.len() - 1))
}

/// A table gives back the segments: behind the heading, one row for each, in order, with its start and
/// its end in seconds and its line in a cell of its own, and with its speaker in another one where
/// speakers are shown. The cell of a segment without a speaker is empty.
pub proof fn a_table_gives_back_the_segments(
    language: Seq<char>,
    segments: Seq<SegmentView>,
    with_speakers: bool,
) -> (rows: Seq<Seq<char>>)
    requires
        segments.len() > 0,
    ensures
        ({
            let head = csv_header(language, with_speakers);
            let file = csv_text(language, segments, with_speakers);
            &&& rows.len() == segments.len()
            &&& starts_with(file, head)
            &&& in_order(file.skip(head.len() as int), rows)
            &&& file.len() == head.len() + total_len(rows) + segments.len()
        }),
        forall|i: int|
            0 <= i < segments.len() ==> {
                &&& read_row(#[trigger] rows[i]) is Some
                &&& ({
                    let (start, stop, cells) = read_row(rows[i])->0;
                    let line = csv_cell(trim(segments[i].line));
                    let label = segments[i].speaker_label;
                    &&& start == timings(segments)[i].start_millis / 1000
                    &&& stop == timings(segments)[i].end_millis / 1000
                    &&& starts_with(cells, line)
                    &&& read_cell(line) == trim(segments[i].line)
                    &&& !with_speakers ==> cells == line
                    &&& with_speakers ==> {
                        let rest = cells.skip(line.len() as int);
                        &&& rest.len() >= 3 && rest[0] == ';'
                        &&& label is Some ==> read_cell(rest.skip(1)) == trim(label->0)
                        &&& label is None ==> read_cell(rest.skip(1)).len() == 0
                    }
                })
            },
{
    let rows = csv_rows(segments, with_speakers);
    let head = csv_header(language, with_speakers);
    let file = csv_text(language, segments, with_speakers);
    reveal_strlit("\n");
    a_join_holds_its_parts_in_order(rows, "\n"@);
    assert(file.take(head.len() as int) =~= head);
    assert(file.skip(head.len() as int) =~= "\n"@ + join(rows, "\n"@));
    lemma_in_order_after("\n"@, join(rows, "\n"@), rows);
    assert forall|i: int| 0 <= i < segments.len() implies ({
        &&& read_row(#[trigger] rows[i]) is Some
        &&& ({
            let (start, stop, cells) = read_row(rows[i])->0;
            let line = csv_cell(trim(segments[i].line));
            let label = segments[i].speaker_label;
            &&& start == timings(segments)[i].start_millis / 1000
            &&& stop == timings(segments)[i].end_millis / 1000
            &&& starts_with(cells, line)
            &&& read_cell(line) == trim(segments[i].line)
            &&& !with_speakers ==> cells == line
            &&& with_speakers ==> {
                let rest = cells.skip(line.len() as int);
                &&& rest.len() >= 3 && rest[0] == ';'
                &&& label is Some ==> read_cell(rest.skip(1)) == trim(label->0)
                &&& label is None ==> read_cell(rest.skip(1)).len() == 0
            }
        })
    }) by {
        lemma_row(segments, i, with_speakers);
        lemma_text_cells(segments[i], with_speakers);
    }
    rows
}

proof fn lemma_read_row(a: Seq<char>, b: Seq<char>, cells: Seq<char>)
    requires
        !a.contains(';'),
        !b.contains(';'),
    ensures
        read_row(a + seq![';'] + (b + seq![';'] + cells)) == Some(
            (read_mm_ss(a), read_mm_ss(b), cells),
        ),
{
    lemma_lead_until_at(a, ';', b + seq![';'] + cells);
    lemma_lead_until_at(b, ';', cells);
}

/// The cells of a row that hold text.
spec fn text_cells(segment: SegmentView, with_speakers: bool) -> Seq<char> {
    let line = csv_cell(trim(segment.line));
    if with_speakers {
        line + seq![';'] + csv_cell(
            match label_of(segment.speaker_label) {
                Some(label) => label,
                None => Seq::empty(),
            },
        )
    } else {
        line
    }
}

proof fn lemma_text_cells(segment: SegmentView, with_speakers: bool)
    ensures
        ({
            let cells = text_cells(segment, with_speakers);
            let line = csv_cell(trim(segment.line));
            let label = segment.speaker_label;
            &&& starts_with(cells, line)
            &&& read_cell(line) == trim(segment.line)
            &&& with_speakers ==> {
                let rest = cells.skip(line.len() as int);
                &&& rest.len() >= 3 && rest[0] == ';'
                &&& label is Some ==> read_cell(rest.skip(1)) == trim(label->0)
                &&& label is None ==> read_cell(rest.skip(1)).len() == 0
            }
        }),
{
    let cells = text_cells(segment, with_speakers);
    let line = csv_cell(trim(segment.line));
    a_cell_gives_back_its_text(trim(segment.line));
    assert(cells.take(line.len() as int) =~= line);
    if with_speakers {
        let speaker = match label_of(segment.speaker_label) {
            Some(label) => label,
            None => Seq::empty(),
        };
        let last = csv_cell(speaker);
        a_cell_gives_back_its_text(speaker);
        let rest = cells.skip(line.len() as int);
        assert(rest =~= seq![';'] + last);
        assert(rest.skip(1) =~= last);
        if segment.speaker_label is Some && trim(segment.speaker_label->0).len() == 0 {
            assert(speaker =~= trim(segment.speaker_label->0));
        }
    }
}

#[verifier::rlimit(40)]
proof fn lemma_row(segments: Seq<SegmentView>, i: int, with_speakers: bool)
    requires
        0 <= i < segments.len(),
    ensures
        read_row(csv_row(segments, i, with_speakers)) == Some(
            (
                (timing(segments, i).start_millis / 1000) as int,
                (timing(segments, i).end_millis / 1000) as int,
                text_cells(segments[i], with_speakers),
            ),
        ),
{
    let t = timing(segments, i);
    let row = csv_row(segments, i, with_speakers);
    let a = mm_ss((t.start_millis / 1000) as nat);
    let b = mm_ss((t.end_millis / 1000) as nat);
    let cells = text_cells(segments[i], with_speakers);
    assert(";"@ =~= seq![';']) by {
        reveal_strlit(";");
    }
    a_label_gives_back_its_time((t.start_millis / 1000) as nat);
    a_label_gives_back_its_time((t.end_millis / 1000) as nat);
    lemma_read_row(a, b, cells);
    assert(row =~= a + seq![';'] + (b + seq![';'] + cells));
}

/// Without segments a WebVTT file holds the text itself, behind the mark of the format.
pub proof fn vtt_without_segments_holds_the_text(text: Seq<char>, with_speakers: bool)
    ensures
        starts_with(vtt_text(Seq::empty(), text, with_speakers), "WEBVTT"@),
        ends_with(vtt_text(Seq::empty(), text, with_speakers), trim(text)),
{
    reveal_strlit("WEBVTT\n\n");
    reveal_strlit("WEBVTT");
    let v = vtt_text(Seq::empty(), text, with_speakers);
    assert(v.take(6) =~= "WEBVTT"@);
    assert(v.skip(v.len() - trim(text).len()) =~= trim(text));
}

} // verus!
