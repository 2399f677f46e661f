//! The document that an export shows: its title, its sections and their lines.

use vstd::prelude::*;
use vstd::string::*;

use crate::artifacts::export::content::{
    build_export_content, clock_text, content, format_srt_time, render_export_segment_line,
    render_timed_line, segment_line, srt_cue, srt_cues, timed_line, timed_lines,
};
use crate::artifacts::export::segments::{
    goes_forward, resolve_segment_timings, segment_views, timing, timings, ExportSegment, ResolvedSegmentTiming,
    SegmentView,
};
use crate::artifacts::export::speakers::{resolve_export_speaker_color, speaker_color};
use crate::artifacts::payloads::{ExportStyle, GeneratedArtifactPackKind};
use crate::text::{
    a_join_holds_its_parts_in_order, cat3, cat4, decimal, ends_with, in_order, inked, join,
    join_texts, lemma_inked_edge, lines,
    lines_hold_all_of_the_text, opt_view, push_decimal, run, same_text, split_lines, starts_with,
    total_len, trim, trim_text, trimming_takes_white_only, views,
};
use crate::text_map::TextMap;

verus! {

// ---------------------------------------------------------------------------
// Titles
// ---------------------------------------------------------------------------

/// The language that an export is written in; English unless another one is asked for.
pub open spec fn export_language(value: Option<Seq<char>>) -> Seq<char> {
    let asked = match value {
        Some(v) => trim(v),
        None => "en"@,
    };
    if asked == "it"@ {
        "it"@
    } else if asked == "es"@ {
        "es"@
    } else if asked == "de"@ {
        "de"@
    } else {
        "en"@
    }
}

/// Chooses the language that an export is written in.
pub fn normalize_export_language(value: Option<&str>) -> (r: &'static str)
    ensures
        r@ == export_language(
            match value {
                Some(v) => Some(v@),
                None => None,
            },
        ),
{
    match value {
        None => {
            proof {
                reveal_strlit("en");
                reveal_strlit("it");
                reveal_strlit("es");
                reveal_strlit("de");
                assert("en"@[1] != "it"@[1]);
                assert("en"@[1] != "es"@[1]);
                assert("en"@[0] != "de"@[0]);
            }
            "en"
        },
        Some(v) => {
            let asked: String = trim_text(v);
            if same_text(asked.as_str(), "it") {
                "it"
            } else if same_text(asked.as_str(), "es") {
                "es"
            } else if same_text(asked.as_str(), "de") {
                "de"
            } else {
                "en"
            }
        },
    }
}

/// One of four texts, by language.
pub open spec fn localized(
    language: Seq<char>,
    it: Seq<char>,
    es: Seq<char>,
    de: Seq<char>,
    en: Seq<char>,
) -> Seq<char> {
    if language == "it"@ {
        it
    } else if language == "es"@ {
        es
    } else if language == "de"@ {
        de
    } else {
        en
    }
}

fn choose_localized(
    language: &str,
    it: &'static str,
    es: &'static str,
    de: &'static str,
    en: &'static str,
) -> (r: &'static str)
    ensures
        r@ == localized(language@, it@, es@, de@, en@),
{
    if same_text(language, "it") {
        it
    } else if same_text(language, "es") {
        es
    } else if same_text(language, "de") {
        de
    } else {
        en
    }
}

/// What a transcript is called when it has no title.
pub open spec fn transcript_word(language: Seq<char>) -> Seq<char> {
    localized(language, "Trascrizione"@, "Transcripción"@, "Transkript"@, "Transcript"@)
}

/// Names a transcript that has no title.
pub fn localized_export_fallback_title(language: &str) -> (r: &'static str)
    ensures
        r@ == transcript_word(language@),
{
    choose_localized(language, "Trascrizione", "Transcripción", "Transkript", "Transcript")
}

/// The title of an export.
pub open spec fn document_title(language: Seq<char>, title: Seq<char>) -> Seq<char> {
    localized(
        language,
        "Trascrizione di "@,
        "Transcripción de "@,
        "Transkript von "@,
        "Transcript of "@,
    ) + (if trim(title).len() == 0 {
        transcript_word(language)
    } else {
        trim(title)
    })
}

/// Writes the title of an export.
pub fn localized_export_document_title(language: &str, title: &str) -> (r: String)
    ensures
        r@ == document_title(language@, title@),
{
    let mut out: String = choose_localized(
        language,
        "Trascrizione di ",
        "Transcripción de ",
        "Transkript von ",
        "Transcript of ",
    ).to_owned();
    let trimmed: String = trim_text(title);
    if trimmed.as_str().is_empty() {
        out.append(localized_export_fallback_title(language));
    } else {
        out.append(trimmed.as_str());
    }
    out
}

/// The title of the section that shows the transcript.
pub open spec fn primary_title(language: Seq<char>, style: ExportStyle) -> Seq<char> {
    if style == ExportStyle::Segments {
        localized(language, "Segmenti"@, "Segmentos"@, "Segmente"@, "Segments"@)
    } else {
        transcript_word(language)
    }
}

/// Names the section that shows the transcript.
pub fn localized_export_primary_section_title(language: &str, style: ExportStyle) -> (r: &'static str)
    ensures
        r@ == primary_title(language@, style),
{
    if style == ExportStyle::Segments {
        choose_localized(language, "Segmenti", "Segmentos", "Segmente", "Segments")
    } else {
        localized_export_fallback_title(language)
    }
}

/// The title of the summary.
pub open spec fn summary_title(language: Seq<char>) -> Seq<char> {
    localized(language, "Riassunto"@, "Resumen"@, "Zusammenfassung"@, "Summary"@)
}

/// Names the summary.
pub fn localized_export_summary_title(language: &str) -> (r: &'static str)
    ensures
        r@ == summary_title(language@),
{
    choose_localized(language, "Riassunto", "Resumen", "Zusammenfassung", "Summary")
}

/// The title of the questions and answers.
pub open spec fn faq_title(language: Seq<char>) -> Seq<char> {
    localized(
        language,
        "Domande frequenti"@,
        "Preguntas frecuentes"@,
        "Häufige Fragen"@,
        "FAQs"@,
    )
}

/// Names the questions and answers.
pub fn localized_export_faq_title(language: &str) -> (r: &'static str)
    ensures
        r@ == faq_title(language@),
{
    choose_localized(
        language,
        "Domande frequenti",
        "Preguntas frecuentes",
        "Häufige Fragen",
        "FAQs",
    )
}

/// The title of a pack.
pub open spec fn pack_title(language: Seq<char>, kind: GeneratedArtifactPackKind) -> Seq<char> {
    match kind {
        GeneratedArtifactPackKind::StudyPack => localized(
            language,
            "Pacchetto studio"@,
            "Paquete de estudio"@,
            "Study Pack"@,
            "Study Pack"@,
        ),
        GeneratedArtifactPackKind::MeetingIntelligence => localized(
            language,
            "Meeting intelligence"@,
            "Inteligencia de reuniones"@,
            "Meeting Intelligence"@,
            "Meeting Intelligence"@,
        ),
    }
}

/// Names a pack.
pub fn localized_generated_pack_title(language: &str, kind: GeneratedArtifactPackKind) -> (r:
    &'static str)
    ensures
        r@ == pack_title(language@, kind),
{
    match kind {
        GeneratedArtifactPackKind::StudyPack => choose_localized(
            language,
            "Pacchetto studio",
            "Paquete de estudio",
            "Study Pack",
            "Study Pack",
        ),
        GeneratedArtifactPackKind::MeetingIntelligence => choose_localized(
            language,
            "Meeting intelligence",
            "Inteligencia de reuniones",
            "Meeting Intelligence",
            "Meeting Intelligence",
        ),
    }
}

proof fn lemma_languages_apart()
    ensures
        "it"@ != "es"@,
        "it"@ != "de"@,
        "it"@ != "en"@,
        "es"@ != "de"@,
        "es"@ != "en"@,
        "de"@ != "en"@,
{
    reveal_strlit("en");
    reveal_strlit("it");
    reveal_strlit("es");
    reveal_strlit("de");
    assert("it"@[0] == 'i');
    assert("es"@[1] == 's');
    assert("de"@[0] == 'd');
    assert("en"@[1] == 'n');
    assert("en"@[0] == 'e');
    assert("es"@[0] == 'e');
}

/// An export is written in the language that is asked for where that is one of the four, and in English
/// otherwise.
pub proof fn an_asked_language_is_used(value: Option<Seq<char>>)
    ensures
        value matches Some(v) ==> (trim(v) == "it"@ || trim(v) == "es"@ || trim(v) == "de"@ || trim(v)
            == "en"@ ==> export_language(value) == trim(v)),
        value matches Some(v) ==> (trim(v) != "it"@ && trim(v) != "es"@ && trim(v) != "de"@
            ==> export_language(value) == "en"@),
        value is None ==> export_language(value) == "en"@,
{
    lemma_languages_apart();
}

/// The title of an export ends with the title that was given, where that says anything; and it says, in
/// the language of the export, that this is a transcript.
pub proof fn a_title_holds_the_given_title(language: Seq<char>, title: Seq<char>)
    ensures
        inked(title).len() > 0 ==> ends_with(document_title(language, title), trim(title)),
        language == "it"@ ==> starts_with(document_title(language, title), "Trascrizione"@),
        language == "es"@ ==> starts_with(document_title(language, title), "Transcripción"@),
        language == "de"@ ==> starts_with(document_title(language, title), "Transkript"@),
        language == "en"@ ==> starts_with(document_title(language, title), "Transcript"@),
        document_title(language, title).len() > trim(title).len(),
{
    lemma_languages_apart();
    trimming_takes_white_only(title);
    lemma_inked_edge(trim(title));
    reveal_strlit("Trascrizione di ");
    reveal_strlit("Transcripción de ");
    reveal_strlit("Transkript von ");
    reveal_strlit("Transcript of ");
    reveal_strlit("Trascrizione");
    reveal_strlit("Transcripción");
    reveal_strlit("Transkript");
    reveal_strlit("Transcript");
    let t = document_title(language, title);
    if inked(title).len() > 0 {
        assert(t.skip(t.len() - trim(title).len()) =~= trim(title));
    }
    if language == "it"@ {
        assert(t.take(12) =~= "Trascrizione"@);
    } else if language == "es"@ {
        assert(t.take(13) =~= "Transcripción"@);
    } else if language == "de"@ {
        assert(t.take(10) =~= "Transkript"@);
    } else if language == "en"@ {
        assert(t.take(10) =~= "Transcript"@);
    }
}

/// The sections of an export are headed in its language: the transcript, the segments, the summary and
/// the questions each by another word.
pub proof fn sections_are_headed_in_the_language(style: ExportStyle)
    ensures
        summary_title("it"@) == "Riassunto"@,
        summary_title("es"@) == "Resumen"@,
        summary_title("de"@) == "Zusammenfassung"@,
        summary_title("en"@) == "Summary"@,
        faq_title("it"@) == "Domande frequenti"@,
        faq_title("es"@) == "Preguntas frecuentes"@,
        faq_title("de"@) == "Häufige Fragen"@,
        faq_title("en"@) == "FAQs"@,
        style == ExportStyle::Segments ==> primary_title("it"@, style) == "Segmenti"@ && primary_title(
            "es"@,
            style,
        ) == "Segmentos"@ && primary_title("de"@, style) == "Segmente"@ && primary_title("en"@, style)
            == "Segments"@,
        style != ExportStyle::Segments ==> primary_title("it"@, style) == "Trascrizione"@
            && primary_title("es"@, style) == "Transcripción"@ && primary_title("de"@, style)
            == "Transkript"@ && primary_title("en"@, style) == "Transcript"@,
        pack_title("it"@, GeneratedArtifactPackKind::StudyPack) == "Pacchetto studio"@,
        pack_title("es"@, GeneratedArtifactPackKind::StudyPack) == "Paquete de estudio"@,
        pack_title("de"@, GeneratedArtifactPackKind::StudyPack) == "Study Pack"@,
        pack_title("en"@, GeneratedArtifactPackKind::StudyPack) == "Study Pack"@,
        pack_title("it"@, GeneratedArtifactPackKind::MeetingIntelligence) == "Meeting intelligence"@,
        pack_title("es"@, GeneratedArtifactPackKind::MeetingIntelligence)
            == "Inteligencia de reuniones"@,
        pack_title("de"@, GeneratedArtifactPackKind::MeetingIntelligence) == "Meeting Intelligence"@,
        pack_title("en"@, GeneratedArtifactPackKind::MeetingIntelligence) == "Meeting Intelligence"@,
{
    lemma_languages_apart();
}

// ---------------------------------------------------------------------------
// Documents
// ---------------------------------------------------------------------------

/// A line of a document, with the colour of its speaker.
#[derive(Debug)]
pub struct ExportStyledLine {
    pub text: String,
    pub speaker_color: Option<String>,
}

/// The content of an [`ExportStyledLine`].
pub struct LineView {
    pub text: Seq<char>,
    pub speaker_color: Option<Seq<char>>,
}

impl View for ExportStyledLine {
    type V = LineView;

    open spec fn view(&self) -> LineView {
        LineView { text: self.text@, speaker_color: opt_view(self.speaker_color) }
    }
}

/// The contents of a list of lines.
pub open spec fn line_views(v: Seq<ExportStyledLine>) -> Seq<LineView> {
    v.map_values(|l: ExportStyledLine| l@)
}

/// A line without a colour.
pub open spec fn plain_line(text: Seq<char>) -> LineView {
    LineView { text, speaker_color: None }
}

/// A section of a document.
#[derive(Debug)]
pub struct ExportDocumentSection {
    pub title: String,
    pub body: String,
    pub styled_lines: Option<Vec<ExportStyledLine>>,
}

/// The content of an [`ExportDocumentSection`].
pub struct SectionView {
    pub title: Seq<char>,
    pub body: Seq<char>,
    pub styled_lines: Option<Seq<LineView>>,
}

impl View for ExportDocumentSection {
    type V = SectionView;

    open spec fn view(&self) -> SectionView {
        SectionView {
            title: self.title@,
            body: self.body@,
            styled_lines: match self.styled_lines {
                Some(v) => Some(line_views(v@)),
                None => None,
            },
        }
    }
}

/// The contents of a list of sections.
pub open spec fn section_views(v: Seq<ExportDocumentSection>) -> Seq<SectionView> {
    v.map_values(|s: ExportDocumentSection| s@)
}

/// A document.
#[derive(Debug)]
pub struct ExportDocument {
    pub title: String,
    pub sections: Vec<ExportDocumentSection>,
}

/// The content of an [`ExportDocument`].
pub struct DocumentView {
    pub title: Seq<char>,
    pub sections: Seq<SectionView>,
}

impl View for ExportDocument {
    type V = DocumentView;

    open spec fn view(&self) -> DocumentView {
        DocumentView { title: self.title@, sections: section_views(self.sections@) }
    }
}

fn push_section(sections: &mut Vec<ExportDocumentSection>, title: &str, body: &str)
    ensures
        section_views(final(sections)@) == section_views(old(sections)@).push(
            plain_section(title@, body@),
        ),
{
    let section = ExportDocumentSection {
        title: title.to_owned(),
        body: body.to_owned(),
        styled_lines: None,
    };
    assert(section@ == plain_section(title@, body@));
    sections.push(section);
    assert(section_views(sections@) =~= section_views(old(sections)@).push(section@));
}

fn push_styled(list: &mut Vec<ExportStyledLine>, text: &str, color: Option<String>)
    ensures
        line_views(final(list)@) == line_views(old(list)@).push(
            LineView { text: text@, speaker_color: opt_view(color) },
        ),
{
    let line = ExportStyledLine { text: text.to_owned(), speaker_color: color };
    list.push(line);
    assert(line_views(list@) =~= line_views(old(list)@).push(line@));
}

/// A section of text without colours.
pub open spec fn plain_section(title: Seq<char>, body: Seq<char>) -> SectionView {
    SectionView { title, body, styled_lines: None }
}

// ---------------------------------------------------------------------------
// The lines of the transcript
// ---------------------------------------------------------------------------

/// The lines of a cue: its number, its time and its line, and a blank line before the next one.
pub open spec fn cue_lines(
    segments: Seq<SegmentView>,
    i: int,
    with_speakers: bool,
    colors: Map<Seq<char>, Seq<char>>,
) -> Seq<LineView> {
    let t = timing(segments, i);
    let shown = seq![
        plain_line(decimal((i + 1) as nat)),
        plain_line(
            clock_text(t.start_millis as nat, ","@) + " --> "@ + clock_text(
                t.end_millis as nat,
                ","@,
            ),
        ),
        LineView {
            text: segment_line(segments[i], with_speakers),
            speaker_color: speaker_color(segments[i], colors),
        },
    ];
    if i + 1 < segments.len() {
        shown.push(plain_line(Seq::empty()))
    } else {
        shown
    }
}

/// The lines of the first `n` cues.
pub open spec fn cues(
    segments: Seq<SegmentView>,
    n: int,
    with_speakers: bool,
    colors: Map<Seq<char>, Seq<char>>,
) -> Seq<LineView>
    decreases n,
{
    if n <= 0 {
        Seq::empty()
    } else {
        cues(segments, n - 1, with_speakers, colors) + cue_lines(
            segments,
            n - 1,
            with_speakers,
            colors,
        )
    }
}

/// The lines of segments in the colours of their speakers.
pub open spec fn colored_lines(
    segments: Seq<SegmentView>,
    with_times: bool,
    with_speakers: bool,
    colors: Map<Seq<char>, Seq<char>>,
) -> Seq<LineView> {
    Seq::new(
        segments.len(),
        |i: int|
            LineView {
                text: timed_line(segments[i], with_times, with_speakers),
                speaker_color: speaker_color(segments[i], colors),
            },
    )
}

/// The lines of the transcript in the colours of their speakers. A transcript that shows no times
/// is one text, and has no such lines.
pub open spec fn primary_lines(
    segments: Seq<SegmentView>,
    style: ExportStyle,
    with_times: bool,
    with_speakers: bool,
    colors: Map<Seq<char>, Seq<char>>,
) -> Option<Seq<LineView>> {
    if segments.len() == 0 || (style == ExportStyle::Transcript && !with_times) {
        None
    } else if style == ExportStyle::Subtitles {
        Some(cues(segments, segments.len() as int, with_speakers, colors))
    } else {
        Some(colored_lines(segments, with_times, with_speakers, colors))
    }
}

/// The view of lines that may be absent.
pub open spec fn opt_line_views(v: Option<Vec<ExportStyledLine>>) -> Option<Seq<LineView>> {
    match v {
        Some(l) => Some(line_views(l@)),
        None => None,
    }
}

/// Writes the lines of the transcript in the colours of their speakers.
pub fn build_primary_section_styled_lines(
    segments: &Vec<ExportSegment>,
    style: ExportStyle,
    include_timestamps: bool,
    include_speaker_names: bool,
    speaker_colors: &TextMap,
) -> (r: Option<Vec<ExportStyledLine>>)
    ensures
        opt_line_views(r) == primary_lines(
            segment_views(segments@),
            style,
            include_timestamps,
            include_speaker_names,
            speaker_colors@,
        ),
{
    let ghost all = segment_views(segments@);
    assert(all.len() == segments@.len());
    if segments.len() == 0 || (style == ExportStyle::Transcript && !include_timestamps) {
        return None;
    }
    let total: usize = segments.len();
    let mut out: Vec<ExportStyledLine> = Vec::new();
    let mut i: usize = 0;
    if style == ExportStyle::Subtitles {
        let times: Vec<ResolvedSegmentTiming> = resolve_segment_timings(segments);
        assert(line_views(out@) =~= Seq::<LineView>::empty());
        while i < total
            invariant
                i <= total,
                total == segments@.len(),
                all == segment_views(segments@),
                times@ == timings(all),
                line_views(out@) == cues(all, i as int, include_speaker_names, speaker_colors@),
            decreases total - i,
        {
            let ghost prior = line_views(out@);
            assert(all[i as int] == segments@[i as int]@);
            assert(times@[i as int] == timing(all, i as int));
            let mut number_text: String = String::new();
            let number: usize = i + 1;
            push_decimal(&mut number_text, number as u64);
            assert(number_text@ =~= decimal((i + 1) as nat));
            push_styled(&mut out, number_text.as_str(), None);
            let shown: String = cat3(
                format_srt_time(times[i].start_millis).as_str(),
                " --> ",
                format_srt_time(times[i].end_millis).as_str(),
            );
            push_styled(&mut out, shown.as_str(), None);
            let line: String = render_export_segment_line(&segments[i], include_speaker_names);
            push_styled(
                &mut out,
                line.as_str(),
                resolve_export_speaker_color(&segments[i], speaker_colors),
            );
            if i + 1 < total {
                let empty: String = String::new();
                assert(empty@ =~= Seq::<char>::empty());
                push_styled(&mut out, empty.as_str(), None);
            }
            assert(line_views(out@) =~= prior + cue_lines(
                all,
                i as int,
                include_speaker_names,
                speaker_colors@,
            ));
            i = i + 1;
        }
    } else {
        let ghost want = colored_lines(
            all,
            include_timestamps,
            include_speaker_names,
            speaker_colors@,
        );
        while i < total
            invariant
                i <= total,
                total == segments@.len(),
                all == segment_views(segments@),
                want == colored_lines(
                    all,
                    include_timestamps,
                    include_speaker_names,
                    speaker_colors@,
                ),
                line_views(out@) =~= want.take(i as int),
            decreases total - i,
        {
            assert(all[i as int] == segments@[i as int]@);
            let line: String = render_timed_line(
                &segments[i],
                include_timestamps,
                include_speaker_names,
            );
            push_styled(
                &mut out,
                line.as_str(),
                resolve_export_speaker_color(&segments[i], speaker_colors),
            );
            i = i + 1;
        }
        assert(want.take(i as int) =~= want);
    }
    Some(out)
}

/// The texts of lines.
pub open spec fn line_texts(list: Seq<LineView>) -> Seq<Seq<char>> {
    list.map_values(|l: LineView| l.text)
}

proof fn lemma_join_more(parts: Seq<Seq<char>>, last: Seq<char>, sep: Seq<char>)
    requires
        parts.len() > 0,
    ensures
        join(parts.push(last), sep) == join(parts, sep) + sep + last,
{
    assert(parts.push(last).drop_last() =~= parts);
}

proof fn lemma_join_three(
    prior: Seq<Seq<char>>,
    a: Seq<char>,
    b: Seq<char>,
    c: Seq<char>,
    sep: Seq<char>,
)
    ensures
        join(prior.push(a).push(b).push(c), sep) == (if prior.len() == 0 {
            Seq::<char>::empty()
        } else {
            join(prior, sep) + sep
        }) + (a + sep + b + sep + c),
{
    lemma_join_more(prior.push(a), b, sep);
    lemma_join_more(prior.push(a).push(b), c, sep);
    if prior.len() == 0 {
        assert(prior.push(a) =~= seq![a]);
        assert(join(seq![a], sep) =~= a);
        assert(a + sep + b + sep + c =~= Seq::<char>::empty() + (a + sep + b + sep + c));
    } else {
        lemma_join_more(prior, a, sep);
        let j = join(prior, sep);
        assert(j + sep + a + sep + b + sep + c =~= j + sep + (a + sep + b + sep + c));
    }
}

proof fn lemma_cue_text(
    segments: Seq<SegmentView>,
    i: int,
    with_speakers: bool,
    colors: Map<Seq<char>, Seq<char>>,
    prior: Seq<LineView>,
)
    requires
        0 <= i < segments.len(),
    ensures
        ({
            let mine = cue_lines(segments, i, with_speakers, colors);
            let cue = srt_cue(segments, i, with_speakers);
            let head = if prior.len() == 0 {
                Seq::<char>::empty()
            } else {
                join(line_texts(prior), "\n"@) + "\n"@
            };
            join(line_texts(prior + mine), "\n"@) == head + cue + (if i + 1 < segments.len() {
                "\n"@
            } else {
                Seq::<char>::empty()
            })
        }),
{
    let nl = "\n"@;
    let t = timing(segments, i);
    let a = decimal((i + 1) as nat);
    let b = clock_text(t.start_millis as nat, ","@) + " --> "@ + clock_text(
        t.end_millis as nat,
        ","@,
    );
    let c = segment_line(segments[i], with_speakers);
    let cue = srt_cue(segments, i, with_speakers);
    assert(cue =~= a + nl + b + nl + c);
    let mine = cue_lines(segments, i, with_speakers, colors);
    let texts = line_texts(prior);
    let three = texts.push(a).push(b).push(c);
    lemma_join_three(texts, a, b, c, nl);
    let list = line_texts(prior + mine);
    let head = if prior.len() == 0 {
        Seq::<char>::empty()
    } else {
        join(texts, nl) + nl
    };
    if i + 1 < segments.len() {
        assert(list =~= three.push(Seq::empty()));
        lemma_join_more(three, Seq::empty(), nl);
        assert(head + cue + nl + Seq::<char>::empty() =~= head + cue + nl);
    } else {
        assert(list =~= three);
        assert(head + cue + Seq::<char>::empty() =~= head + cue);
    }
}

proof fn lemma_cue_gap(
    head: Seq<char>,
    nl: Seq<char>,
    gap: Seq<char>,
    cue: Seq<char>,
    end: Seq<char>,
)
    requires
        gap == nl + nl,
    ensures
        head + nl + nl + cue + end == head + gap + cue + end,
        Seq::<char>::empty() + cue + end == cue + end,
{
    assert(head + nl + nl =~= head + gap);
    assert(Seq::<char>::empty() + cue =~= cue);
}

proof fn lemma_one_joined(cue: Seq<char>, sep: Seq<char>)
    ensures
        join(seq![cue], sep) == cue,
{
}

proof fn lemma_cues_text(
    segments: Seq<SegmentView>,
    n: int,
    with_speakers: bool,
    colors: Map<Seq<char>, Seq<char>>,
)
    requires
        0 < n <= segments.len(),
    ensures
        cues(segments, n, with_speakers, colors).len() > 0,
        join(line_texts(cues(segments, n, with_speakers, colors)), "\n"@) == join(
            srt_cues(segments, with_speakers).take(n),
            "\n\n"@,
        ) + (if n < segments.len() {
            "\n"@
        } else {
            Seq::<char>::empty()
        }),
    decreases n,
{
    let nl = "\n"@;
    let gap = "\n\n"@;
    assert(gap == nl + nl) by {
        reveal_strlit("\n");
        reveal_strlit("\n\n");
        assert(gap =~= nl + nl);
    }
    let all = srt_cues(segments, with_speakers);
    let i = n - 1;
    let cue = srt_cue(segments, i, with_speakers);
    let before = cues(segments, i, with_speakers, colors);
    let mine = cue_lines(segments, i, with_speakers, colors);
    let now = cues(segments, n, with_speakers, colors);
    assert(now == before + mine);
    let end = if n < segments.len() {
        nl
    } else {
        Seq::<char>::empty()
    };
    lemma_cue_text(segments, i, with_speakers, colors, before);
    let text = join(line_texts(now), nl);
    assert(all.take(n) == all.take(i).push(cue)) by {
        assert(all.take(n) =~= all.take(i).push(cue));
    }
    if i == 0 {
        assert(before.len() == 0);
        assert(text == Seq::<char>::empty() + cue + end);
        assert(all.take(n) == seq![cue]) by {
            assert(all.take(n) =~= seq![cue]);
        }
        lemma_one_joined(cue, gap);
        lemma_cue_gap(Seq::empty(), nl, gap, cue, end);
    } else {
        lemma_cues_text(segments, i, with_speakers, colors);
        let head = join(all.take(i), gap);
        assert(join(line_texts(before), nl) == head + nl);
        assert(text == head + nl + nl + cue + end);
        lemma_join_more(all.take(i), cue, gap);
        lemma_cue_gap(head, nl, gap, cue, end);
    }
}

/// The coloured lines of a transcript are its content, line by line: put together they are the text that
/// the same style writes without colours.
pub proof fn colored_lines_are_the_content(
    text: Seq<char>,
    segments: Seq<SegmentView>,
    style: ExportStyle,
    with_times: bool,
    with_speakers: bool,
    colors: Map<Seq<char>, Seq<char>>,
)
    ensures
        primary_lines(segments, style, with_times, with_speakers, colors) matches Some(list) ==> join(
            line_texts(list),
            "\n"@,
        ) == content(text, segments, style, with_times, with_speakers),
        primary_lines(segments, style, with_times, with_speakers, colors) is None ==> content(
            text,
            segments,
            style,
            with_times,
            with_speakers,
        ) == trim(text),
{
    if segments.len() > 0 && style == ExportStyle::Subtitles {
        lemma_cues_text(segments, segments.len() as int, with_speakers, colors);
        let all = srt_cues(segments, with_speakers);
        assert(all.take(segments.len() as int) =~= all);
        assert(join(all, "\n\n"@) + Seq::<char>::empty() =~= join(all, "\n\n"@));
    } else if segments.len() > 0 {
        assert(line_texts(colored_lines(segments, with_times, with_speakers, colors))
            =~= timed_lines(segments, with_times, with_speakers));
    }
}

/// Every segment's line stands in the colour of its speaker: one line for each segment, or the third of
/// each cue.
pub proof fn lines_have_the_colors_of_their_speakers(
    segments: Seq<SegmentView>,
    style: ExportStyle,
    with_times: bool,
    with_speakers: bool,
    colors: Map<Seq<char>, Seq<char>>,
    i: int,
)
    requires
        0 <= i < segments.len(),
    ensures
        primary_lines(segments, style, with_times, with_speakers, colors) matches Some(list) ==> {
            &&& style == ExportStyle::Subtitles ==> {
                &&& 4 * i + 2 < list.len()
                &&& list[4 * i + 2].text == segment_line(segments[i], with_speakers)
                &&& list[4 * i + 2].speaker_color == speaker_color(segments[i], colors)
                &&& list[4 * i].speaker_color is None && list[4 * i + 1].speaker_color is None
            }
            &&& style != ExportStyle::Subtitles ==> list.len() == segments.len()
                && list[i].speaker_color == speaker_color(segments[i], colors)
        },
{
    if style == ExportStyle::Subtitles {
        lemma_cue_place(segments, segments.len() as int, with_speakers, colors, i);
    }
}

#[verifier::rlimit(40)]
proof fn lemma_cue_place(
    segments: Seq<SegmentView>,
    n: int,
    with_speakers: bool,
    colors: Map<Seq<char>, Seq<char>>,
    i: int,
)
    requires
        0 <= i < n <= segments.len(),
    ensures
        ({
            let list = cues(segments, n, with_speakers, colors);
            &&& list.len() == (if n < segments.len() {
                4 * n
            } else {
                4 * n - 1
            })
            &&& list[4 * i + 2].text == segment_line(segments[i], with_speakers)
            &&& list[4 * i + 2].speaker_color == speaker_color(segments[i], colors)
            &&& list[4 * i].speaker_color is None
            &&& list[4 * i + 1].speaker_color is None
        }),
    decreases n,
{
    let before = cues(segments, n - 1, with_speakers, colors);
    let mine = cue_lines(segments, n - 1, with_speakers, colors);
    if n > 1 {
        if i < n - 1 {
            lemma_cue_place(segments, n - 1, with_speakers, colors, i);
        } else {
            lemma_cue_place(segments, n - 1, with_speakers, colors, 0);
            assert((before + mine)[4 * i] == mine[0]);
            assert((before + mine)[4 * i + 1] == mine[1]);
            assert((before + mine)[4 * i + 2] == mine[2]);
        }
    } else {
        assert(before =~= Seq::<LineView>::empty());
        assert((before + mine)[0] == mine[0]);
        assert((before + mine)[1] == mine[1]);
        assert((before + mine)[2] == mine[2]);
    }
}

// ---------------------------------------------------------------------------
// The sections
// ---------------------------------------------------------------------------

/// The section of a pack, if it says anything.
pub open spec fn pack_section(
    language: Seq<char>,
    kind: GeneratedArtifactPackKind,
    body: Option<Seq<char>>,
) -> Seq<SectionView> {
    match body {
        Some(b) if trim(b).len() > 0 => seq![plain_section(pack_title(language, kind), trim(b))],
        _ => Seq::empty(),
    }
}

/// The sections of the packs.
pub open spec fn pack_sections(
    language: Seq<char>,
    study: Option<Seq<char>>,
    meeting: Option<Seq<char>>,
) -> Seq<SectionView> {
    pack_section(language, GeneratedArtifactPackKind::StudyPack, study) + pack_section(
        language,
        GeneratedArtifactPackKind::MeetingIntelligence,
        meeting,
    )
}

/// Makes the sections of the packs that are stored with a transcript.
pub fn build_generated_pack_sections(
    language: &str,
    study_pack: &Option<String>,
    meeting_pack: &Option<String>,
) -> (r: Vec<ExportDocumentSection>)
    ensures
        section_views(r@) == pack_sections(
            language@,
            opt_view(*study_pack),
            opt_view(*meeting_pack),
        ),
{
    let mut out: Vec<ExportDocumentSection> = Vec::new();
    if let Some(body) = study_pack {
        let trimmed: String = trim_text(body.as_str());
        if !trimmed.as_str().is_empty() {
            push_section(
                &mut out,
                localized_generated_pack_title(language, GeneratedArtifactPackKind::StudyPack),
                trimmed.as_str(),
            );
        }
    }
    if let Some(body) = meeting_pack {
        let trimmed: String = trim_text(body.as_str());
        if !trimmed.as_str().is_empty() {
            push_section(
                &mut out,
                localized_generated_pack_title(
                    language,
                    GeneratedArtifactPackKind::MeetingIntelligence,
                ),
                trimmed.as_str(),
            );
        }
    }
    assert(section_views(out@) =~= pack_sections(
        language@,
        opt_view(*study_pack),
        opt_view(*meeting_pack),
    ));
    out
}

/// What a document is made of.
#[derive(Debug)]
pub struct DocumentSource {
    pub title: String,
    pub transcription: String,
    pub summary: String,
    pub faqs: String,
    pub study_pack: Option<String>,
    pub meeting_pack: Option<String>,
}

/// A section of a text, if that says anything.
pub open spec fn optional_section(title: Seq<char>, text: Seq<char>) -> Seq<SectionView> {
    if trim(text).len() == 0 {
        Seq::empty()
    } else {
        seq![plain_section(title, trim(text))]
    }
}

/// The content of a [`DocumentSource`].
pub struct SourceView {
    pub title: Seq<char>,
    pub transcription: Seq<char>,
    pub summary: Seq<char>,
    pub faqs: Seq<char>,
    pub study_pack: Option<Seq<char>>,
    pub meeting_pack: Option<Seq<char>>,
}

impl View for DocumentSource {
    type V = SourceView;

    open spec fn view(&self) -> SourceView {
        SourceView {
            title: self.title@,
            transcription: self.transcription@,
            summary: self.summary@,
            faqs: self.faqs@,
            study_pack: opt_view(self.study_pack),
            meeting_pack: opt_view(self.meeting_pack),
        }
    }
}

/// The document of an export: the transcript, then the summary, the questions and the packs, as far
/// as there are any.
pub open spec fn export_document(
    language: Seq<char>,
    source: SourceView,
    segments: Seq<SegmentView>,
    style: ExportStyle,
    with_times: bool,
    with_speakers: bool,
    colors: Map<Seq<char>, Seq<char>>,
) -> DocumentView {
    DocumentView {
        title: document_title(language, source.title),
        sections: seq![
            SectionView {
                title: primary_title(language, style),
                body: content(source.transcription, segments, style, with_times, with_speakers),
                styled_lines: primary_lines(segments, style, with_times, with_speakers, colors),
            },
        ] + optional_section(summary_title(language), source.summary) + optional_section(
            faq_title(language),
            source.faqs,
        ) + pack_sections(language, source.study_pack, source.meeting_pack),
    }
}

/// Makes the document of an export.
pub fn build_export_document(
    language: &str,
    source: &DocumentSource,
    segments: &Vec<ExportSegment>,
    style: ExportStyle,
    include_timestamps: bool,
    include_speaker_names: bool,
    speaker_colors: &TextMap,
) -> (r: ExportDocument)
    ensures
        r@ == export_document(
            language@,
            source@,
            segment_views(segments@),
            style,
            include_timestamps,
            include_speaker_names,
            speaker_colors@,
        ),
{
    let mut sections: Vec<ExportDocumentSection> = Vec::new();
    let primary = ExportDocumentSection {
        title: localized_export_primary_section_title(language, style).to_owned(),
        body: build_export_content(
            source.transcription.as_str(),
            segments,
            style,
            include_timestamps,
            include_speaker_names,
        ),
        styled_lines: build_primary_section_styled_lines(
            segments,
            style,
            include_timestamps,
            include_speaker_names,
            speaker_colors,
        ),
    };
    let ghost first = primary@;
    sections.push(primary);
    assert(section_views(sections@) =~= seq![first]);
    let summary: String = trim_text(source.summary.as_str());
    if !summary.as_str().is_empty() {
        push_section(&mut sections, localized_export_summary_title(language), summary.as_str());
    }
    let faqs: String = trim_text(source.faqs.as_str());
    if !faqs.as_str().is_empty() {
        push_section(&mut sections, localized_export_faq_title(language), faqs.as_str());
    }
    let ghost before = section_views(sections@);
    let mut packs: Vec<ExportDocumentSection> = build_generated_pack_sections(
        language,
        &source.study_pack,
        &source.meeting_pack,
    );
    let ghost tail = section_views(packs@);
    sections.append(&mut packs);
    assert(section_views(sections@) =~= before + tail);
    let out = ExportDocument {
        title: localized_export_document_title(language, source.title.as_str()),
        sections,
    };
    proof {
        let want = export_document(
            language@,
            source@,
            segment_views(segments@),
            style,
            include_timestamps,
            include_speaker_names,
            speaker_colors@,
        );
        assert(first == want.sections[0]);
        assert(out@.sections =~= want.sections);
    }
    out
}

/// One when a text says anything, else none.
pub open spec fn one_if_said(text: Option<Seq<char>>) -> int {
    if text is Some && inked(text->0).len() > 0 {
        1
    } else {
        0
    }
}

/// A document shows all that it is made of and nothing else: the content of the transcript first, and
/// behind it the summary, the questions, the study pack and the meeting pack, in this order, each of
/// them exactly when it says anything, whole and under its own title.
pub proof fn a_document_shows_all_that_there_is(
    language: Seq<char>,
    source: SourceView,
    segments: Seq<SegmentView>,
    style: ExportStyle,
    with_times: bool,
    with_speakers: bool,
    colors: Map<Seq<char>, Seq<char>>,
)
    ensures
        ({
            let d = export_document(
                language,
                source,
                segments,
                style,
                with_times,
                with_speakers,
                colors,
            );
            let all = d.sections;
            let a = one_if_said(Some(source.summary));
            let b = one_if_said(Some(source.faqs));
            let c = one_if_said(source.study_pack);
            let e = one_if_said(source.meeting_pack);
            &&& all.len() == 1 + a + b + c + e
            &&& all[0].body == content(
                source.transcription,
                segments,
                style,
                with_times,
                with_speakers,
            )
            &&& all[0].title == primary_title(language, style)
            &&& a == 1 ==> all[1].body == trim(source.summary) && all[1].title == summary_title(language)
            &&& b == 1 ==> all[1 + a].body == trim(source.faqs) && all[1 + a].title == faq_title(
                language,
            )
            &&& c == 1 ==> all[1 + a + b].body == trim(source.study_pack->0) && all[1 + a + b].title
                == pack_title(language, GeneratedArtifactPackKind::StudyPack)
            &&& e == 1 ==> all[1 + a + b + c].body == trim(source.meeting_pack->0) && all[1 + a + b
                + c].title == pack_title(language, GeneratedArtifactPackKind::MeetingIntelligence)
            &&& d.title == document_title(language, source.title)
        }),
{
    trimming_takes_white_only(source.summary);
    trimming_takes_white_only(source.faqs);
    lemma_inked_edge(trim(source.summary));
    lemma_inked_edge(trim(source.faqs));
    if source.study_pack is Some {
        trimming_takes_white_only(source.study_pack->0);
        lemma_inked_edge(trim(source.study_pack->0));
    }
    if source.meeting_pack is Some {
        trimming_takes_white_only(source.meeting_pack->0);
        lemma_inked_edge(trim(source.meeting_pack->0));
    }
}

// ---------------------------------------------------------------------------
// Documents as text
// ---------------------------------------------------------------------------

/// The blocks of the first `n` sections that say anything, each a heading and a body.
pub open spec fn blocks(sections: Seq<SectionView>, n: int, before: Seq<char>, between: Seq<char>) -> Seq<
    Seq<char>,
>
    decreases n,
{
    if n <= 0 {
        Seq::empty()
    } else {
        let earlier = blocks(sections, n - 1, before, between);
        let section = sections[n - 1];
        if trim(section.body).len() == 0 {
            earlier
        } else {
            earlier.push(before + trim(section.title) + between + trim(section.body))
        }
    }
}

/// A document as text: its title and its blocks.
pub open spec fn document_text(
    document: DocumentView,
    title_mark: Seq<char>,
    section_mark: Seq<char>,
    between: Seq<char>,
) -> Seq<char> {
    join(
        seq![title_mark + trim(document.title)] + blocks(
            document.sections,
            document.sections.len() as int,
            section_mark,
            between,
        ),
        "\n\n"@,
    )
}

/// Whether a block is that of a section: its mark and its title in front, its body at the end, and
/// nothing else but what stands between the two.
pub open spec fn is_block(
    block: Seq<char>,
    section: SectionView,
    before: Seq<char>,
    between: Seq<char>,
) -> bool {
    &&& block.len() == before.len() + trim(section.title).len() + between.len() + trim(
        section.body,
    ).len()
    &&& starts_with(block, before + trim(section.title))
    &&& ends_with(block, between + trim(section.body))
}

proof fn lemma_blocks(sections: Seq<SectionView>, n: int, before: Seq<char>, between: Seq<char>) -> (places:
    Seq<int>)
    requires
        0 <= n <= sections.len(),
    ensures
        places.len() == blocks(sections, n, before, between).len(),
        goes_forward(places, n),
        forall|k: int|
            0 <= k < places.len() ==> is_block(
                blocks(sections, n, before, between)[k],
                sections[#[trigger] places[k]],
                before,
                between,
            ),
        forall|j: int|
            0 <= j < n && !places.contains(j) ==> inked((#[trigger] sections[j]).body).len() == 0,
    decreases n,
{
    if n == 0 {
        Seq::empty()
    } else {
        let earlier = lemma_blocks(sections, n - 1, before, between);
        let section = sections[n - 1];
        trimming_takes_white_only(section.body);
        lemma_inked_edge(trim(section.body));
        let all = blocks(sections, n, before, between);
        let places = if trim(section.body).len() == 0 {
            earlier
        } else {
            earlier.push(n - 1)
        };
        assert forall|k: int| 0 <= k < places.len() implies is_block(
            all[k],
            sections[#[trigger] places[k]],
            before,
            between,
        ) by {
            if k < earlier.len() {
                assert(places[k] == earlier[k]);
            } else {
                let block = before + trim(section.title) + between + trim(section.body);
                let head = before + trim(section.title);
                let tail = between + trim(section.body);
                assert(block.take(head.len() as int) =~= head);
                assert(block.skip(block.len() - tail.len()) =~= tail);
            }
        }
        assert forall|j: int| 0 <= j < n && !places.contains(j) implies inked(
            (#[trigger] sections[j]).body,
        ).len() == 0 by {
            if j < n - 1 {
                if earlier.contains(j) {
                    let k = choose|k: int| 0 <= k < earlier.len() && earlier[k] == j;
                    assert(places[k] == j);
                }
            } else if trim(section.body).len() > 0 {
                assert(places[earlier.len() as int] == j);
            }
        }
        assert forall|k: int, l: int| 0 <= k < l < places.len() implies #[trigger] places[k]
            < #[trigger] places[l] by {
            if l < earlier.len() {
                assert(earlier[k] < earlier[l]);
            } else {
                assert(0 <= earlier[k] < n - 1);
            }
        }
        assert forall|k: int| 0 <= k < places.len() implies 0 <= #[trigger] places[k] < n by {
            if k < earlier.len() {
                assert(0 <= earlier[k] < n - 1);
            }
        }
        places
    }
}

/// A document as text shows its title, and below it every section that says anything, in order, each
/// with its title and its whole body, and with an empty line between two.
pub proof fn a_document_as_text_shows_every_section(
    document: DocumentView,
    title_mark: Seq<char>,
    section_mark: Seq<char>,
    between: Seq<char>,
) -> (r: (Seq<Seq<char>>, Seq<int>))
    ensures
        r.0.len() == r.1.len() + 1,
        in_order(document_text(document, title_mark, section_mark, between), r.0),
        document_text(document, title_mark, section_mark, between).len() == total_len(r.0) + 2
            * r.1.len(),
        r.0[0] == title_mark + trim(document.title),
        goes_forward(r.1, document.sections.len() as int),
        forall|k: int|
            0 <= k < r.1.len() ==> is_block(
                r.0[k + 1],
                document.sections[#[trigger] r.1[k]],
                section_mark,
                between,
            ),
        forall|j: int|
            0 <= j < document.sections.len() && !r.1.contains(j) ==> inked(
                (#[trigger] document.sections[j]).body,
            ).len() == 0,
{
    let n = document.sections.len() as int;
    let list = blocks(document.sections, n, section_mark, between);
    let places = lemma_blocks(document.sections, n, section_mark, between);
    let parts = seq![title_mark + trim(document.title)] + list;
    reveal_strlit("\n\n");
    a_join_holds_its_parts_in_order(parts, "\n\n"@);
    assert forall|k: int| 0 <= k < places.len() implies is_block(
        parts[k + 1],
        document.sections[#[trigger] places[k]],
        section_mark,
        between,
    ) by {
        assert(parts[k + 1] == list[k]);
    }
    (parts, places)
}

fn write_document(document: &ExportDocument, title_mark: &str, section_mark: &str, between: &str) -> (r:
    String)
    ensures
        r@ == document_text(document@, title_mark@, section_mark@, between@),
{
    let ghost all = document@.sections;
    assert(all.len() == document.sections@.len());
    let mut parts: Vec<String> = Vec::new();
    let mut title: String = title_mark.to_owned();
    title.append(trim_text(document.title.as_str()).as_str());
    parts.push(title);
    let ghost head = seq![title_mark@ + trim(document.title@)];
    assert(views(parts@) =~= head);
    let mut i: usize = 0;
    while i < document.sections.len()
        invariant
            i <= document.sections@.len(),
            all == section_views(document.sections@),
            views(parts@) =~= head + blocks(all, i as int, section_mark@, between@),
        decreases document.sections@.len() - i,
    {
        let ghost prior = views(parts@);
        let section: &ExportDocumentSection = &document.sections[i];
        assert(all[i as int] == section@);
        let body: String = trim_text(section.body.as_str());
        if !body.as_str().is_empty() {
            let part: String = cat4(
                section_mark,
                trim_text(section.title.as_str()).as_str(),
                between,
                body.as_str(),
            );
            parts.push(part);
            assert(views(parts@) =~= prior.push(part@));
        }
        i = i + 1;
    }
    join_texts(&parts, "\n\n")
}

/// Writes a document as plain text.
pub fn render_plain_text_document(document: &ExportDocument) -> (r: String)
    ensures
        r@ == document_text(document@, ""@, ""@, "\n"@),
{
    write_document(document, "", "", "\n")
}

/// Writes a document as Markdown.
pub fn render_markdown_document(document: &ExportDocument) -> (r: String)
    ensures
        r@ == document_text(document@, "# "@, "## "@, "\n\n"@),
{
    write_document(document, "# ", "## ", "\n\n")
}

/// The lines of a section below its title.
pub open spec fn body_lines(section: SectionView) -> Seq<LineView> {
    match section.styled_lines {
        Some(list) => list,
        None => lines(section.body).map_values(|l: Seq<char>| plain_line(l)),
    }
}

/// The lines of the first `n` sections: a blank line before the first title, two before each other
/// one.
pub open spec fn document_lines(sections: Seq<SectionView>, n: int) -> Seq<LineView>
    decreases n,
{
    if n <= 0 {
        Seq::empty()
    } else {
        let gap = if n == 1 {
            seq![plain_line(Seq::empty())]
        } else {
            seq![plain_line(Seq::empty()), plain_line(Seq::empty())]
        };
        document_lines(sections, n - 1) + gap + seq![plain_line(sections[n - 1].title)]
            + body_lines(sections[n - 1])
    }
}

/// Copies the lines of a section below its title to the end of a list.
pub fn push_body_lines(list: &mut Vec<ExportStyledLine>, section: &ExportDocumentSection)
    ensures
        line_views(final(list)@) == line_views(old(list)@) + body_lines(section@),
{
    let ghost start = line_views(list@);
    match &section.styled_lines {
        Some(styled) => {
            let mut i: usize = 0;
            while i < styled.len()
                invariant
                    i <= styled@.len(),
                    line_views(list@) =~= start + line_views(styled@).take(i as int),
                decreases styled@.len() - i,
            {
                push_styled(list, styled[i].text.as_str(), styled[i].speaker_color.clone());
                assert(line_views(styled@)[i as int] == styled@[i as int]@);
                i = i + 1;
            }
            assert(line_views(styled@).take(i as int) =~= line_views(styled@));
        },
        None => {
            let plain: Vec<String> = split_lines(section.body.as_str());
            let ghost all = lines(section.body@);
            let ghost f = |l: Seq<char>| plain_line(l);
            let mut i: usize = 0;
            while i < plain.len()
                invariant
                    i <= plain@.len(),
                    views(plain@) == all,
                    f == |l: Seq<char>| plain_line(l),
                    line_views(list@) =~= start + all.map_values(f).take(i as int),
                decreases plain@.len() - i,
            {
                assert(all[i as int] == plain@[i as int]@);
                push_styled(list, plain[i].as_str(), None);
                i = i + 1;
            }
            assert(views(plain@).len() == plain@.len());
            assert(all.map_values(f).take(i as int) =~= all.map_values(f));
        },
    }
}

/// Lists the lines of a document's body.
pub fn render_document_body_styled_lines(document: &ExportDocument) -> (r: Vec<ExportStyledLine>)
    ensures
        line_views(r@) == document_lines(
            document@.sections,
            document@.sections.len() as int,
        ),
{
    let ghost all = document@.sections;
    assert(all.len() == document.sections@.len());
    let mut out: Vec<ExportStyledLine> = Vec::new();
    let empty: String = String::new();
    assert(empty@ =~= Seq::<char>::empty());
    assert(line_views(out@) =~= document_lines(all, 0));
    let mut i: usize = 0;
    while i < document.sections.len()
        invariant
            i <= document.sections@.len(),
            all == section_views(document.sections@),
            empty@ == Seq::<char>::empty(),
            line_views(out@) == document_lines(all, i as int),
        decreases document.sections@.len() - i,
    {
        let ghost prior = line_views(out@);
        let section: &ExportDocumentSection = &document.sections[i];
        assert(all[i as int] == section@);
        push_styled(&mut out, empty.as_str(), None);
        if i > 0 {
            push_styled(&mut out, empty.as_str(), None);
        }
        push_styled(&mut out, section.title.as_str(), None);
        let ghost mid = line_views(out@);
        push_body_lines(&mut out, section);
        proof {
            let gap = if i == 0 {
                seq![plain_line(Seq::empty())]
            } else {
                seq![plain_line(Seq::empty()), plain_line(Seq::empty())]
            };
            assert(mid =~= prior + gap + seq![plain_line(section.title@)]);
        }
        i = i + 1;
    }
    out
}

/// The lines of a section without colours are those of its body: together they hold all of it that is
/// not white, and no line is broken.
pub proof fn plain_lines_are_the_body(section: SectionView)
    requires
        section.styled_lines is None,
    ensures
        inked(run(line_texts(body_lines(section)))) == inked(section.body),
        forall|i: int|
            0 <= i < body_lines(section).len() ==> !(#[trigger] body_lines(section)[i]).text.contains(
                '\n',
            ) && body_lines(section)[i].speaker_color is None,
{
    lines_hold_all_of_the_text(section.body);
    assert(line_texts(body_lines(section)) =~= lines(section.body));
}

/// The lines of a document hold every section: its title on a line of its own behind a blank one, and
/// right below it all the lines of its body.
pub proof fn lines_of_a_document_hold_every_section(sections: Seq<SectionView>, n: int, i: int) -> (at:
    int)
    requires
        0 <= i < n <= sections.len(),
    ensures
        ({
            let all = document_lines(sections, n);
            let body = body_lines(sections[i]);
            &&& 1 <= at && at + 1 + body.len() <= all.len()
            &&& all[at - 1].text.len() == 0
            &&& all[at].text == sections[i].title
            &&& all.subrange(at + 1, at + 1 + body.len() as int) == body
            &&& i == 0 ==> at == 1
            &&& i == n - 1 ==> at + 1 + body.len() == all.len()
        }),
    decreases n,
{
    let before = document_lines(sections, n - 1);
    let gap = if n == 1 {
        seq![plain_line(Seq::empty())]
    } else {
        seq![plain_line(Seq::empty()), plain_line(Seq::empty())]
    };
    let mine = body_lines(sections[n - 1]);
    let all = document_lines(sections, n);
    if i == n - 1 {
        let at = before.len() as int + gap.len() as int;
        if n == 1 {
            assert(before =~= Seq::<LineView>::empty());
        }
        assert(all.subrange(at + 1, at + 1 + mine.len() as int) =~= mine);
        at
    } else {
        let at = lines_of_a_document_hold_every_section(sections, n - 1, i);
        let body = body_lines(sections[i]);
        assert(all.subrange(at + 1, at + 1 + body.len() as int) =~= before.subrange(
            at + 1,
            at + 1 + body.len() as int,
        ));
        at
    }
}

} // verus!
