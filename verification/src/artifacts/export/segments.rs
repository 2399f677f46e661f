//! Segments of an export, and when they are shown.

use vstd::prelude::*;
use vstd::string::*;

use crate::text::{
    a_padded_number_gives_back_its_number, a_padded_number_is_digits, inked, join,
    lemma_inked_edge, lemma_lead_until_at, lemma_padded_width, lines, number, opt_view, padded,
    push_padded, split_char, split_lines, split_on, splitting_and_joining_gives_the_text_back, trim,
    trim_text, trimming_takes_white_only, views,
};

verus! {

/// The seconds for which a segment is shown when nothing says when it ends.
pub const DEFAULT_SEGMENT_SECONDS: u32 = 4;

/// A moment of a recording. Moments are ordered by their whole seconds, and then by the rank of
/// what is left of a second.
#[derive(Clone, Copy, PartialEq, Eq, Structural, Debug)]
pub struct ClockTime {
    pub seconds: u64,
    pub fraction_rank: u64,
    /// The moment in milliseconds, to the nearest.
    pub millis: u64,
    /// The moment [`DEFAULT_SEGMENT_SECONDS`] later, in milliseconds, to the nearest.
    pub default_end_millis: u64,
}

impl ClockTime {
    /// Whether a moment is later than another.
    pub open spec fn later_than(self, other: ClockTime) -> bool {
        self.seconds > other.seconds || (self.seconds == other.seconds && self.fraction_rank
            > other.fraction_rank)
    }

    /// Tells whether a moment is later than another.
    pub fn is_later_than(self, other: ClockTime) -> (r: bool)
        ensures
            r == self.later_than(other),
    {
        self.seconds > other.seconds || (self.seconds == other.seconds && self.fraction_rank
            > other.fraction_rank)
    }
}

/// The moment after whole seconds.
pub open spec fn whole_seconds(seconds: nat) -> ClockTime {
    ClockTime {
        seconds: seconds as u64,
        fraction_rank: 0,
        millis: (seconds * 1000) as u64,
        default_end_millis: ((seconds + DEFAULT_SEGMENT_SECONDS) * 1000) as u64,
    }
}

/// Makes the moment after whole seconds.
pub fn clock_at(seconds: u32) -> (r: ClockTime)
    ensures
        r == whole_seconds(seconds as nat),
{
    let s: u64 = seconds as u64;
    ClockTime {
        seconds: s,
        fraction_rank: 0,
        millis: s * 1000,
        default_end_millis: (s + DEFAULT_SEGMENT_SECONDS as u64) * 1000,
    }
}

/// A segment of an export.
#[derive(Debug)]
pub struct ExportSegment {
    pub time: String,
    pub line: String,
    /// What its time label says.
    pub label_start: ClockTime,
    /// When it starts, where that is known otherwise.
    pub start: Option<ClockTime>,
    /// When it ends, where that is known.
    pub end: Option<ClockTime>,
    pub speaker_id: Option<String>,
    pub speaker_label: Option<String>,
}

/// The content of an [`ExportSegment`].
pub struct SegmentView {
    pub time: Seq<char>,
    pub line: Seq<char>,
    pub label_start: ClockTime,
    pub start: Option<ClockTime>,
    pub end: Option<ClockTime>,
    pub speaker_id: Option<Seq<char>>,
    pub speaker_label: Option<Seq<char>>,
}

impl View for ExportSegment {
    type V = SegmentView;

    open spec fn view(&self) -> SegmentView {
        SegmentView {
            time: self.time@,
            line: self.line@,
            label_start: self.label_start,
            start: self.start,
            end: self.end,
            speaker_id: opt_view(self.speaker_id),
            speaker_label: opt_view(self.speaker_label),
        }
    }
}

/// The contents of a list of segments.
pub open spec fn segment_views(v: Seq<ExportSegment>) -> Seq<SegmentView> {
    v.map_values(|s: ExportSegment| s@)
}

// ---------------------------------------------------------------------------
// Time labels
// ---------------------------------------------------------------------------

/// The hours, minutes and seconds of a time label; a label of two parts has no hours.
pub open spec fn label_parts(label: Seq<char>) -> Option<(Seq<char>, Seq<char>, Seq<char>)> {
    let parts = split_on(trim(label), ':');
    if parts.len() == 2 {
        Some(("0"@, parts[0], parts[1]))
    } else if parts.len() == 3 {
        Some((parts[0], parts[1], parts[2]))
    } else {
        None
    }
}

/// Splits a time label into hours, minutes and seconds.
pub fn parse_timestamp_to_seconds(value: &str) -> (r: Option<(String, String, String)>)
    ensures
        match label_parts(value@) {
            Some((h, m, s)) => r is Some && (r->0).0@ == h && (r->0).1@ == m && (r->0).2@ == s,
            None => r is None,
        },
{
    let trimmed: String = trim_text(value);
    let parts: Vec<String> = split_char(trimmed.as_str(), ':');
    assert(views(parts@).len() == parts@.len());
    if parts.len() == 2 {
        assert(views(parts@)[0] == parts@[0]@ && views(parts@)[1] == parts@[1]@);
        Some(("0".to_owned(), parts[0].clone(), parts[1].clone()))
    } else if parts.len() == 3 {
        assert(views(parts@)[0] == parts@[0]@ && views(parts@)[1] == parts@[1]@ && views(parts@)[2]
            == parts@[2]@);
        Some((parts[0].clone(), parts[1].clone(), parts[2].clone()))
    } else {
        None
    }
}

/// The parts of a label give the label back, but for white edges: two or three parts with a colon
/// between them, and no hours where there are two. A label of more or fewer parts says nothing.
pub proof fn a_label_is_read_by_its_colons(label: Seq<char>)
    ensures
        match label_parts(label) {
            Some((h, m, s)) => {
                &&& !h.contains(':') && !m.contains(':') && !s.contains(':')
                &&& trim(label) == h + seq![':'] + m + seq![':'] + s || (h == "0"@ && trim(label) == m
                    + seq![':'] + s)
            },
            None => true,
        },
        forall|m: Seq<char>, s: Seq<char>|
            !m.contains(':') && !s.contains(':') && trim(label) == #[trigger] (m + seq![':'] + s)
                ==> label_parts(label) == Some(("0"@, m, s)),
{
    splitting_and_joining_gives_the_text_back(trim(label), ':');
    let parts = split_on(trim(label), ':');
    reveal_with_fuel(join, 4);
    reveal_strlit("0");
    if parts.len() == 2 {
        assert(parts.drop_last() =~= seq![parts[0]]);
        assert(!parts[0].contains(':') && !parts[1].contains(':'));
        assert(!"0"@.contains(':'));
    }
    if parts.len() == 3 {
        assert(parts.drop_last().drop_last() =~= seq![parts[0]]);
        assert(!parts[0].contains(':') && !parts[1].contains(':') && !parts[2].contains(':'));
    }
    assert forall|m: Seq<char>, s: Seq<char>|
        !m.contains(':') && !s.contains(':') && trim(label) == #[trigger] (m + seq![':'] + s) implies
        label_parts(label) == Some(("0"@, m, s)) by {
        reveal_with_fuel(split_on, 3);
        lemma_lead_until_at(m, ':', s);
        lemma_lead_until_at(s, ':', Seq::empty());
        assert(parts =~= seq![m, s]);
    }
}

// ---------------------------------------------------------------------------
// Where segments come from
// ---------------------------------------------------------------------------

/// The lines of a text that say anything, trimmed.
pub open spec fn text_lines(list: Seq<Seq<char>>) -> Seq<Seq<char>>
    decreases list.len(),
{
    if list.len() == 0 {
        Seq::empty()
    } else {
        let before = text_lines(list.drop_last());
        let line = trim(list.last());
        if line.len() > 0 {
            before.push(line)
        } else {
            before
        }
    }
}

/// The label of a time in minutes and seconds.
pub open spec fn mm_ss(seconds: nat) -> Seq<char> {
    padded(seconds / 60, 2) + ":"@ + padded(seconds % 60, 2)
}

/// The segment of the `i`-th line of a text: each line is shown for the same time.
pub open spec fn line_segment(i: int, line: Seq<char>) -> SegmentView {
    let seconds = (i * DEFAULT_SEGMENT_SECONDS) as nat;
    SegmentView {
        time: mm_ss(seconds),
        line,
        label_start: whole_seconds(seconds),
        start: Some(whole_seconds(seconds)),
        end: Some(whole_seconds(seconds + DEFAULT_SEGMENT_SECONDS as nat)),
        speaker_id: None,
        speaker_label: None,
    }
}

/// The segments of a text.
pub open spec fn segments_of_text(text: Seq<char>) -> Seq<SegmentView> {
    let list = text_lines(lines(text));
    Seq::new(list.len(), |i: int| line_segment(i, list[i]))
}

/// What a label of minutes and seconds says.
pub open spec fn read_mm_ss(label: Seq<char>) -> int {
    number(label.take(label.len() - 3)) * 60 + number(label.skip(label.len() - 2))
}

/// A label of minutes and seconds can be read back: two digits of seconds behind a colon, and the
/// minutes before it.
pub proof fn a_label_gives_back_its_time(seconds: nat)
    ensures
        read_mm_ss(mm_ss(seconds)) == seconds,
        mm_ss(seconds).len() >= 5,
        mm_ss(seconds)[mm_ss(seconds).len() - 3] == ':',
        !mm_ss(seconds).contains(';'),
        !mm_ss(seconds).contains('\n'),
{
    reveal_strlit(":");
    let a = padded(seconds / 60, 2);
    let b = padded(seconds % 60, 2);
    let s = mm_ss(seconds);
    lemma_padded_width(seconds % 60);
    a_padded_number_gives_back_its_number(seconds / 60, 2);
    a_padded_number_gives_back_its_number(seconds % 60, 2);
    a_padded_number_is_digits(seconds / 60, 2);
    a_padded_number_is_digits(seconds % 60, 2);
    assert(s.take(s.len() - 3) =~= a);
    assert(s.skip(s.len() - 2) =~= b);
    assert forall|i: int| 0 <= i < s.len() implies #[trigger] s[i] != ';' && s[i] != '\n' by {
        if i < a.len() {
            assert(s[i] == a[i]);
        } else if i > a.len() {
            assert(s[i] == b[i - a.len() - 1]);
        }
    }
}

/// Places in a list that go forward.
pub open spec fn goes_forward(places: Seq<int>, bound: int) -> bool {
    &&& forall|k: int| 0 <= k < places.len() ==> 0 <= #[trigger] places[k] < bound
    &&& forall|k: int, l: int|
        0 <= k < l < places.len() ==> #[trigger] places[k] < #[trigger] places[l]
}

/// The lines of a text that say anything are kept, in order and without white edges; those that say
/// nothing are left out.
pub proof fn lines_that_say_anything_are_kept(list: Seq<Seq<char>>) -> (places: Seq<int>)
    ensures
        places.len() == text_lines(list).len(),
        goes_forward(places, list.len() as int),
        forall|k: int|
            0 <= k < places.len() ==> text_lines(list)[k] == trim(list[#[trigger] places[k]])
                && text_lines(list)[k].len() > 0,
        forall|j: int|
            0 <= j < list.len() && !places.contains(j) ==> inked(#[trigger] list[j]).len() == 0,
    decreases list.len(),
{
    if list.len() == 0 {
        Seq::empty()
    } else {
        let front = list.drop_last();
        let before = lines_that_say_anything_are_kept(front);
        let n = list.len() - 1;
        let line = trim(list.last());
        trimming_takes_white_only(list.last());
        lemma_inked_edge(line);
        let places = if line.len() > 0 {
            before.push(n)
        } else {
            before
        };
        assert forall|j: int| 0 <= j < list.len() && !places.contains(j) implies inked(
            #[trigger] list[j],
        ).len() == 0 by {
            if j < n {
                assert(front[j] == list[j]);
                if before.contains(j) {
                    let k = choose|k: int| 0 <= k < before.len() && before[k] == j;
                    assert(places[k] == j);
                }
            } else if line.len() > 0 {
                assert(places[before.len() as int] == n);
            }
        }
        assert forall|k: int| 0 <= k < places.len() implies text_lines(list)[k] == trim(
            list[#[trigger] places[k]],
        ) && text_lines(list)[k].len() > 0 by {
            if k < before.len() {
                assert(places[k] == before[k]);
                assert(front[before[k]] == list[before[k]]);
            }
        }
        assert forall|k: int, l: int| 0 <= k < l < places.len() implies #[trigger] places[k]
            < #[trigger] places[l] by {
            if l < before.len() {
                assert(before[k] < before[l]);
            } else {
                assert(0 <= before[k] < n);
            }
        }
        assert forall|k: int| 0 <= k < places.len() implies 0 <= #[trigger] places[k] < list.len() by {
            if k < before.len() {
                assert(0 <= before[k] < front.len());
            }
        }
        places
    }
}

/// The lines of a text are shown one after the other, four seconds each from the beginning on, and
/// each is labelled with the time at which it starts.
pub proof fn lines_of_a_text_are_shown_in_turn(text: Seq<char>, i: int)
    requires
        0 <= i < segments_of_text(text).len(),
        (segments_of_text(text).len() + 1) * 4 <= u32::MAX,
    ensures
        ({
            let all = segments_of_text(text);
            &&& all.len() == text_lines(lines(text)).len()
            &&& all[i].line == text_lines(lines(text))[i]
            &&& all[i].start is Some && all[i].start->0.millis == 4000 * i
            &&& all[i].end is Some && all[i].end->0.millis == 4000 * (i + 1)
            &&& all[i].label_start == all[i].start->0
            &&& read_mm_ss(all[i].time) == 4 * i
            &&& all[i].speaker_id is None && all[i].speaker_label is None
            &&& timing(all, i).start_millis == 4000 * i
            &&& timing(all, i).end_millis == 4000 * (i + 1)
        }),
{
    a_label_gives_back_its_time((i * DEFAULT_SEGMENT_SECONDS) as nat);
}

/// Writes a time in minutes and seconds.
pub fn write_mm_ss(seconds: u64) -> (r: String)
    ensures
        r@ == mm_ss(seconds as nat),
{
    let mut out: String = String::new();
    push_padded(&mut out, seconds / 60, 2);
    assert(out@ =~= padded((seconds / 60) as nat, 2));
    out.append(":");
    push_padded(&mut out, seconds % 60, 2);
    out
}

/// Makes segments of the lines of a text.
pub fn build_segments_from_text(transcription: &str) -> (r: Vec<ExportSegment>)
    requires
        (text_lines(lines(transcription@)).len() + 1) * DEFAULT_SEGMENT_SECONDS <= u32::MAX,
    ensures
        segment_views(r@) == segments_of_text(transcription@),
{
    let list: Vec<String> = split_lines(transcription);
    let ghost all = lines(transcription@);
    let ghost kept = text_lines(all);
    let mut out: Vec<ExportSegment> = Vec::new();
    let mut i: usize = 0;
    while i < list.len()
        invariant
            i <= list@.len(),
            views(list@) == all,
            kept == text_lines(all),
            (kept.len() + 1) * DEFAULT_SEGMENT_SECONDS <= u32::MAX,
            segment_views(out@) =~= Seq::new(
                text_lines(all.take(i as int)).len(),
                |k: int| line_segment(k, text_lines(all.take(i as int))[k]),
            ),
        decreases list@.len() - i,
    {
        let ghost before = text_lines(all.take(i as int));
        let ghost now = all.take(i + 1);
        let ghost prior = segment_views(out@);
        proof {
            assert(now.drop_last() =~= all.take(i as int));
            assert(now.last() == list@[i as int]@);
            lemma_text_lines_grow(all, i + 1);
            assert(segment_views(out@).len() == out@.len());
        }
        let line: String = trim_text(list[i].as_str());
        if !line.as_str().is_empty() {
            assert(text_lines(now) =~= before.push(line@));
            assert(before.len() + 1 <= kept.len());
            let seconds: u32 = out.len() as u32 * DEFAULT_SEGMENT_SECONDS;
            let segment = ExportSegment {
                time: write_mm_ss(seconds as u64),
                line,
                label_start: clock_at(seconds),
                start: Some(clock_at(seconds)),
                end: Some(clock_at(seconds + DEFAULT_SEGMENT_SECONDS)),
                speaker_id: None,
                speaker_label: None,
            };
            proof {
                assert(segment@ == line_segment(before.len() as int, line@));
            }
            out.push(segment);
            proof {
                assert(segment_views(out@) =~= prior.push(segment@));
                assert(segment_views(out@) =~= Seq::new(
                    text_lines(now).len(),
                    |k: int| line_segment(k, text_lines(now)[k]),
                ));
            }
        } else {
            assert(text_lines(now) =~= before);
        }
        i = i + 1;
    }
    assert(all.take(i as int) =~= all);
    out
}

proof fn lemma_text_lines_grow(list: Seq<Seq<char>>, n: int)
    requires
        0 <= n <= list.len(),
    ensures
        text_lines(list.take(n)).len() <= text_lines(list).len(),
    decreases list.len() - n,
{
    if n < list.len() {
        lemma_text_lines_grow(list, n + 1);
        assert(list.take(n + 1).drop_last() =~= list.take(n));
    } else {
        assert(list.take(n) =~= list);
    }
}

/// A segment of a timeline.
#[derive(Debug)]
pub struct TimelineSegment {
    pub text: String,
    pub time_label: Option<String>,
    /// What its time label says.
    pub label_start: ClockTime,
    pub start: Option<ClockTime>,
    pub end: Option<ClockTime>,
    pub speaker_id: Option<String>,
    pub speaker_label: Option<String>,
}

/// Whether a segment of a timeline is exported: it says something, and when.
pub open spec fn is_exported(segment: TimelineSegment) -> bool {
    &&& trim(segment.text@).len() > 0
    &&& segment.time_label is Some
    &&& trim(segment.time_label->0@).len() > 0
}

/// The segment of an export for one of a timeline.
pub open spec fn exported(segment: TimelineSegment) -> SegmentView {
    SegmentView {
        time: segment.time_label->0@,
        line: trim(segment.text@),
        label_start: segment.label_start,
        start: segment.start,
        end: segment.end,
        speaker_id: opt_view(segment.speaker_id),
        speaker_label: opt_view(segment.speaker_label),
    }
}

/// The segments of an export for a timeline.
pub open spec fn timeline_exports(timeline: Seq<TimelineSegment>) -> Seq<SegmentView>
    decreases timeline.len(),
{
    if timeline.len() == 0 {
        Seq::empty()
    } else {
        let before = timeline_exports(timeline.drop_last());
        if is_exported(timeline.last()) {
            before.push(exported(timeline.last()))
        } else {
            before
        }
    }
}

/// The segments of a timeline, or of the text where the timeline has none to show.
pub open spec fn export_segments(timeline: Seq<TimelineSegment>, text: Seq<char>) -> Seq<SegmentView> {
    let list = timeline_exports(timeline);
    if list.len() > 0 {
        list
    } else {
        segments_of_text(text)
    }
}

/// Makes the segments of an export.
pub fn build_export_segments(timeline: &Vec<TimelineSegment>, transcription: &str) -> (r: Vec<
    ExportSegment,
>)
    requires
        timeline_exports(timeline@).len() == 0 ==> (text_lines(lines(transcription@)).len() + 1)
            * DEFAULT_SEGMENT_SECONDS <= u32::MAX,
    ensures
        segment_views(r@) == export_segments(timeline@, transcription@),
{
    let mut out: Vec<ExportSegment> = Vec::new();
    let mut i: usize = 0;
    while i < timeline.len()
        invariant
            i <= timeline@.len(),
            segment_views(out@) =~= timeline_exports(timeline@.take(i as int)),
        decreases timeline@.len() - i,
    {
        let ghost now = timeline@.take(i + 1);
        let ghost prior = segment_views(out@);
        assert(now.drop_last() =~= timeline@.take(i as int));
        assert(now.last() == timeline@[i as int]);
        let entry: &TimelineSegment = &timeline[i];
        let line: String = trim_text(entry.text.as_str());
        if let Some(time) = &entry.time_label {
            if !line.as_str().is_empty() && !trim_text(time.as_str()).as_str().is_empty() {
                let segment = ExportSegment {
                    time: time.clone(),
                    line,
                    label_start: entry.label_start,
                    start: entry.start,
                    end: entry.end,
                    speaker_id: entry.speaker_id.clone(),
                    speaker_label: entry.speaker_label.clone(),
                };
                out.push(segment);
                assert(segment_views(out@) =~= prior.push(segment@));
                assert(segment@ == exported(*entry));
            }
        }
        i = i + 1;
    }
    assert(timeline@.take(i as int) =~= timeline@);
    assert(segment_views(out@).len() == out@.len());
    if out.len() == 0 {
        build_segments_from_text(transcription)
    } else {
        out
    }
}

/// The segments of a timeline that say something and when are exported, in order, with their times and
/// speakers; the others are left out.
pub proof fn timeline_segments_are_exported(timeline: Seq<TimelineSegment>) -> (places: Seq<int>)
    ensures
        places.len() == timeline_exports(timeline).len(),
        goes_forward(places, timeline.len() as int),
        forall|k: int|
            0 <= k < places.len() ==> {
                let s = timeline[#[trigger] places[k]];
                let e = timeline_exports(timeline)[k];
                &&& s.time_label is Some && e.time == s.time_label->0@
                &&& e.line == trim(s.text@)
                &&& e.start == s.start && e.end == s.end && e.label_start == s.label_start
                &&& e.speaker_id == opt_view(s.speaker_id)
                &&& e.speaker_label == opt_view(s.speaker_label)
            },
        forall|j: int|
            0 <= j < timeline.len() && !places.contains(j) ==> {
                ||| inked((#[trigger] timeline[j]).text@).len() == 0
                ||| timeline[j].time_label is None
                ||| inked(timeline[j].time_label->0@).len() == 0
            },
    decreases timeline.len(),
{
    if timeline.len() == 0 {
        Seq::empty()
    } else {
        let front = timeline.drop_last();
        let before = timeline_segments_are_exported(front);
        let n = timeline.len() - 1;
        let last = timeline.last();
        trimming_takes_white_only(last.text@);
        lemma_inked_edge(trim(last.text@));
        if last.time_label is Some {
            trimming_takes_white_only(last.time_label->0@);
            lemma_inked_edge(trim(last.time_label->0@));
        }
        let places = if is_exported(last) {
            before.push(n)
        } else {
            before
        };
        assert forall|j: int| 0 <= j < timeline.len() && !places.contains(j) implies {
            ||| inked((#[trigger] timeline[j]).text@).len() == 0
            ||| timeline[j].time_label is None
            ||| inked(timeline[j].time_label->0@).len() == 0
        } by {
            if j < n {
                assert(front[j] == timeline[j]);
                if before.contains(j) {
                    let k = choose|k: int| 0 <= k < before.len() && before[k] == j;
                    assert(places[k] == j);
                }
            } else if is_exported(last) {
                assert(places[before.len() as int] == n);
            }
        }
        assert forall|k: int| 0 <= k < places.len() implies {
            let s = timeline[#[trigger] places[k]];
            let e = timeline_exports(timeline)[k];
            &&& s.time_label is Some && e.time == s.time_label->0@
            &&& e.line == trim(s.text@)
            &&& e.start == s.start && e.end == s.end && e.label_start == s.label_start
            &&& e.speaker_id == opt_view(s.speaker_id)
            &&& e.speaker_label == opt_view(s.speaker_label)
        } by {
            if k < before.len() {
                assert(places[k] == before[k]);
                assert(0 <= before[k] < front.len());
                assert(front[before[k]] == timeline[before[k]]);
            }
        }
        assert forall|k: int, l: int| 0 <= k < l < places.len() implies #[trigger] places[k]
            < #[trigger] places[l] by {
            if l < before.len() {
                assert(before[k] < before[l]);
            } else {
                assert(0 <= before[k] < n);
            }
        }
        assert forall|k: int| 0 <= k < places.len() implies 0 <= #[trigger] places[k]
            < timeline.len() by {
            if k < before.len() {
                assert(0 <= before[k] < front.len());
            }
        }
        places
    }
}

/// A timeline with anything to show is what is exported; only without one are the segments made of
/// the text.
pub proof fn a_timeline_goes_before_the_text(
    timeline: Seq<TimelineSegment>,
    text: Seq<char>,
    i: int,
)
    requires
        0 <= i < timeline.len(),
        inked(timeline[i].text@).len() > 0,
        timeline[i].time_label is Some,
        inked(timeline[i].time_label->0@).len() > 0,
    ensures
        export_segments(timeline, text) == timeline_exports(timeline),
        timeline_exports(timeline).len() > 0,
{
    let places = timeline_segments_are_exported(timeline);
    if places.len() == 0 {
        assert(!places.contains(i));
    }
}

// ---------------------------------------------------------------------------
// When segments are shown
// ---------------------------------------------------------------------------

/// When a segment is shown, in milliseconds.
#[derive(Clone, Copy, PartialEq, Eq, Structural, Debug)]
pub struct ResolvedSegmentTiming {
    pub start_millis: u64,
    pub end_millis: u64,
}

/// When a segment starts: where it is known, else what its label says.
pub open spec fn segment_start(segment: SegmentView) -> ClockTime {
    match segment.start {
        Some(t) => t,
        None => segment.label_start,
    }
}

/// When a segment ends, in milliseconds: at its own end, else at the start of the next one, else
/// after the default time; an end that is not later than the start does not count.
pub open spec fn segment_end_millis(segments: Seq<SegmentView>, i: int) -> u64 {
    let start = segment_start(segments[i]);
    if segments[i].end is Some && segments[i].end->0.later_than(start) {
        segments[i].end->0.millis
    } else if i + 1 < segments.len() && segment_start(segments[i + 1]).later_than(start) {
        segment_start(segments[i + 1]).millis
    } else {
        start.default_end_millis
    }
}

/// When the `i`-th segment is shown. It is shown for a millisecond at least.
pub open spec fn timing(segments: Seq<SegmentView>, i: int) -> ResolvedSegmentTiming {
    let start_millis = segment_start(segments[i]).millis;
    let least = if start_millis == u64::MAX {
        u64::MAX
    } else {
        (start_millis + 1) as u64
    };
    let end = segment_end_millis(segments, i);
    ResolvedSegmentTiming {
        start_millis,
        end_millis: if end < least {
            least
        } else {
            end
        },
    }
}

/// When the segments are shown.
pub open spec fn timings(segments: Seq<SegmentView>) -> Seq<ResolvedSegmentTiming> {
    Seq::new(segments.len(), |i: int| timing(segments, i))
}

/// A segment is shown until after it starts.
pub proof fn a_segment_ends_after_it_starts(segments: Seq<SegmentView>, i: int)
    requires
        0 <= i < segments.len(),
        segment_start(segments[i]).millis < u64::MAX,
    ensures
        timings(segments)[i].start_millis < timings(segments)[i].end_millis,
{
}

/// A segment that says when it ends is shown until then, also where the next one starts before.
pub proof fn an_explicit_end_is_kept(segments: Seq<SegmentView>, i: int)
    requires
        0 <= i < segments.len(),
        segments[i].end is Some,
        segments[i].end->0.later_than(segment_start(segments[i])),
        segments[i].end->0.millis > segment_start(segments[i]).millis,
    ensures
        timings(segments)[i].end_millis == segments[i].end->0.millis,
{
}

/// A segment is shown from its own start on, or from the time that its label says where it has none.
/// Without an end of its own it is shown until the next one starts, or for the default time where none
/// follows; and for a millisecond at least.
pub proof fn segments_follow_each_other(segments: Seq<SegmentView>, i: int)
    requires
        0 <= i < segments.len(),
    ensures
        ({
            let t = timings(segments)[i];
            let began = if segments[i].start is Some {
                segments[i].start->0
            } else {
                segments[i].label_start
            };
            &&& timings(segments).len() == segments.len()
            &&& t.start_millis == began.millis
            &&& segments[i].end is None && i + 1 < segments.len() && segments[i + 1].start is Some
                && segments[i + 1].start->0.later_than(began) && segments[i + 1].start->0.millis
                > began.millis ==> t.end_millis == segments[i + 1].start->0.millis
            &&& segments[i].end is None && i + 1 < segments.len() && segments[i + 1].start is None
                && segments[i + 1].label_start.later_than(began) && segments[i + 1].label_start.millis
                > began.millis ==> t.end_millis == segments[i + 1].label_start.millis
            &&& segments[i].end is None && i + 1 == segments.len() && began.default_end_millis
                > began.millis ==> t.end_millis == began.default_end_millis
            &&& began.millis < u64::MAX ==> t.end_millis > t.start_millis
        }),
{
}

/// A moment with more seconds is later, and so is one with as many and more of the next; no two moments
/// are later than each other.
pub proof fn moments_are_ordered(a: ClockTime, b: ClockTime)
    ensures
        a.seconds > b.seconds ==> a.later_than(b),
        a.seconds == b.seconds && a.fraction_rank > b.fraction_rank ==> a.later_than(b),
        !(a.later_than(b) && b.later_than(a)),
        !a.later_than(a),
{
}

fn start_of(segment: &ExportSegment) -> (r: ClockTime)
    ensures
        r == segment_start(segment@),
{
    match segment.start {
        Some(t) => t,
        None => segment.label_start,
    }
}

/// Resolves when the segments are shown.
pub fn resolve_segment_timings(segments: &Vec<ExportSegment>) -> (r: Vec<ResolvedSegmentTiming>)
    ensures
        r@ == timings(segment_views(segments@)),
{
    let ghost all = segment_views(segments@);
    let mut out: Vec<ResolvedSegmentTiming> = Vec::new();
    let mut i: usize = 0;
    while i < segments.len()
        invariant
            i <= segments@.len(),
            all == segment_views(segments@),
            out@ =~= timings(all).take(i as int),
        decreases segments@.len() - i,
    {
        assert(all[i as int] == segments@[i as int]@);
        let start: ClockTime = start_of(&segments[i]);
        let mut end: u64 = start.default_end_millis;
        if i + 1 < segments.len() {
            assert(all[i + 1] == segments@[i + 1]@);
            let next: ClockTime = start_of(&segments[i + 1]);
            if next.is_later_than(start) {
                end = next.millis;
            }
        }
        if let Some(own) = segments[i].end {
            if own.is_later_than(start) {
                end = own.millis;
            }
        }
        let least: u64 = if start.millis == u64::MAX {
            u64::MAX
        } else {
            start.millis + 1
        };
        let end_millis: u64 = if end < least {
            least
        } else {
            end
        };
        out.push(ResolvedSegmentTiming { start_millis: start.millis, end_millis });
        i = i + 1;
    }
    assert(timings(all).take(i as int) =~= timings(all));
    out
}

/// A segment with the times at which it is shown.
#[derive(Debug)]
pub struct ResolvedExportSegment {
    pub time: String,
    pub line: String,
    pub timing: ResolvedSegmentTiming,
    pub speaker_id: Option<String>,
    pub speaker_label: Option<String>,
}

/// The content of a [`ResolvedExportSegment`].
pub struct ResolvedSegmentView {
    pub time: Seq<char>,
    pub line: Seq<char>,
    pub timing: ResolvedSegmentTiming,
    pub speaker_id: Option<Seq<char>>,
    pub speaker_label: Option<Seq<char>>,
}

impl View for ResolvedExportSegment {
    type V = ResolvedSegmentView;

    open spec fn view(&self) -> ResolvedSegmentView {
        ResolvedSegmentView {
            time: self.time@,
            line: self.line@,
            timing: self.timing,
            speaker_id: opt_view(self.speaker_id),
            speaker_label: opt_view(self.speaker_label),
        }
    }
}

/// The contents of a list of resolved segments.
pub open spec fn resolved_views(v: Seq<ResolvedExportSegment>) -> Seq<ResolvedSegmentView> {
    v.map_values(|s: ResolvedExportSegment| s@)
}

/// A segment with its times, and with its speaker where speakers are shown.
pub open spec fn resolved(segments: Seq<SegmentView>, i: int, with_speakers: bool) -> ResolvedSegmentView {
    ResolvedSegmentView {
        time: segments[i].time,
        line: segments[i].line,
        timing: timing(segments, i),
        speaker_id: if with_speakers {
            segments[i].speaker_id
        } else {
            None
        },
        speaker_label: if with_speakers {
            segments[i].speaker_label
        } else {
            None
        },
    }
}

/// Gives segments their times, and leaves speakers out where they are not shown.
pub fn resolved_export_segments(segments: &Vec<ExportSegment>, include_speaker_names: bool) -> (r:
    Vec<ResolvedExportSegment>)
    ensures
        resolved_views(r@) == Seq::new(
            segments@.len(),
            |i: int| resolved(segment_views(segments@), i, include_speaker_names),
        ),
{
    let ghost all = segment_views(segments@);
    let times: Vec<ResolvedSegmentTiming> = resolve_segment_timings(segments);
    let mut out: Vec<ResolvedExportSegment> = Vec::new();
    let mut i: usize = 0;
    while i < segments.len()
        invariant
            i <= segments@.len(),
            all == segment_views(segments@),
            times@ == timings(all),
            resolved_views(out@) =~= Seq::new(
                i as nat,
                |k: int| resolved(all, k, include_speaker_names),
            ),
        decreases segments@.len() - i,
    {
        let ghost prior = resolved_views(out@);
        assert(all[i as int] == segments@[i as int]@);
        let (speaker_id, speaker_label): (Option<String>, Option<String>) =
            if include_speaker_names {
            (segments[i].speaker_id.clone(), segments[i].speaker_label.clone())
        } else {
            (None, None)
        };
        let entry = ResolvedExportSegment {
            time: segments[i].time.clone(),
            line: segments[i].line.clone(),
            timing: times[i],
            speaker_id,
            speaker_label,
        };
        out.push(entry);
        proof {
            assert(entry@ == resolved(all, i as int, include_speaker_names));
            assert(resolved_views(out@) =~= prior.push(entry@));
        }
        i = i + 1;
    }
    out
}

/// A resolved segment keeps its text, its label and its times; its speaker is there exactly where
/// speakers are shown.
pub proof fn resolving_keeps_the_segment(segments: Seq<SegmentView>, i: int, with_speakers: bool)
    requires
        0 <= i < segments.len(),
    ensures
        ({
            let r = resolved(segments, i, with_speakers);
            &&& r.line == segments[i].line
            &&& r.time == segments[i].time
            &&& r.timing == timings(segments)[i]
            &&& with_speakers ==> r.speaker_id == segments[i].speaker_id && r.speaker_label
                == segments[i].speaker_label
            &&& !with_speakers ==> r.speaker_id is None && r.speaker_label is None
        }),
{
}

} // verus!
