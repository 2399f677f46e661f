//! Preparing an export, showing it and writing it.

use docx_rs::Docx;
use vstd::prelude::*;
use vstd::string::*;

use crate::artifacts::export::content::{
    build_export_content, build_markdown_subtitles_content, build_vtt_content, content, csv_header,
    csv_text, markdown_subtitles, render_csv_content, vtt_text,
};
use crate::artifacts::export::document::{
    blocks, build_export_document, document_text, export_document, export_language,
    normalize_export_language, render_markdown_document, render_plain_text_document,
    section_views, DocumentSource, DocumentView, ExportDocument, ExportDocumentSection,
    SectionView, SourceView,
};
use crate::artifacts::export::docx::{document_paragraphs, docx_paragraphs, export_docx};
use crate::artifacts::export::html::{export_html, html_page};
use crate::artifacts::export::pdf::{export_pdf, page_views, pdf_pages, PdfOp};
use crate::artifacts::export::segments::{
    build_export_segments, build_segments_from_text, export_segments, resolved,
    resolved_export_segments, resolved_views, segment_views, segments_of_text, text_lines,
    timeline_exports,
    ExportSegment, ResolvedExportSegment, SegmentView, TimelineSegment, DEFAULT_SEGMENT_SECONDS,
};
use crate::artifacts::payloads::{
    plain_export, ExportFormat, ExportGrouping, ExportOptions, ExportPreviewMode,
    ExportPreviewResponse, ExportStyle,
};
use crate::error::{command_error, CommandError, CommandErrorView};
use crate::text::{
    cat4, contains, inked, join, lemma_contains_middle, lemma_inked_edge, lemma_join_first, lines,
    opt_view, starts_with, trim, trim_text, trimming_takes_white_only,
};
use crate::text_map::TextMap;

verus! {

// ---------------------------------------------------------------------------
// Which formats a style has
// ---------------------------------------------------------------------------

/// Whether a style can be exported in a format.
pub open spec fn is_supported(style: ExportStyle, format: ExportFormat) -> bool {
    match style {
        ExportStyle::Transcript => format is Txt || format is Docx || format is Html || format is Pdf
            || format is Md,
        ExportStyle::Subtitles => format is Srt || format is Vtt,
        ExportStyle::Segments => format is Txt || format is Csv || format is Docx || format is Html
            || format is Pdf || format is Md || format is Json,
    }
}

/// The name of a format in messages.
pub open spec fn format_word(format: ExportFormat) -> Seq<char> {
    match format {
        ExportFormat::Txt => "Txt"@,
        ExportFormat::Docx => "Docx"@,
        ExportFormat::Html => "Html"@,
        ExportFormat::Pdf => "Pdf"@,
        ExportFormat::Json => "Json"@,
        ExportFormat::Srt => "Srt"@,
        ExportFormat::Vtt => "Vtt"@,
        ExportFormat::Csv => "Csv"@,
        ExportFormat::Md => "Md"@,
    }
}

/// The name of a style in messages.
pub open spec fn style_word(style: ExportStyle) -> Seq<char> {
    match style {
        ExportStyle::Transcript => "Transcript"@,
        ExportStyle::Subtitles => "Subtitles"@,
        ExportStyle::Segments => "Segments"@,
    }
}

fn name_format(format: ExportFormat) -> (r: &'static str)
    ensures
        r@ == format_word(format),
{
    match format {
        ExportFormat::Txt => "Txt",
        ExportFormat::Docx => "Docx",
        ExportFormat::Html => "Html",
        ExportFormat::Pdf => "Pdf",
        ExportFormat::Json => "Json",
        ExportFormat::Srt => "Srt",
        ExportFormat::Vtt => "Vtt",
        ExportFormat::Csv => "Csv",
        ExportFormat::Md => "Md",
    }
}

fn name_style(style: ExportStyle) -> (r: &'static str)
    ensures
        r@ == style_word(style),
{
    match style {
        ExportStyle::Transcript => "Transcript",
        ExportStyle::Subtitles => "Subtitles",
        ExportStyle::Segments => "Segments",
    }
}

/// What is reported when a style has no such format.
pub open spec fn unsupported(style: ExportStyle, format: ExportFormat) -> CommandErrorView {
    command_error(
        "invalid_export"@,
        "format "@ + format_word(format) + " is not available for style "@ + style_word(style),
    )
}

/// Checks that a style can be exported in a format.
pub fn validate_export_combination(style: ExportStyle, format: ExportFormat) -> (r: Result<
    (),
    CommandError,
>)
    ensures
        r is Ok <==> is_supported(style, format),
        r is Err ==> r->Err_0@ == unsupported(style, format),
{
    let supported: bool = match style {
        ExportStyle::Transcript => format == ExportFormat::Txt || format == ExportFormat::Docx
            || format == ExportFormat::Html || format == ExportFormat::Pdf || format
            == ExportFormat::Md,
        ExportStyle::Subtitles => format == ExportFormat::Srt || format == ExportFormat::Vtt,
        ExportStyle::Segments => format == ExportFormat::Txt || format == ExportFormat::Csv
            || format == ExportFormat::Docx || format == ExportFormat::Html || format
            == ExportFormat::Pdf || format == ExportFormat::Md || format == ExportFormat::Json,
    };
    if supported {
        return Ok(());
    }
    let message: String = cat4(
        "format ",
        name_format(format),
        " is not available for style ",
        name_style(style),
    );
    Err(CommandError::new("invalid_export", message.as_str()))
}

/// Subtitles come as SubRip and WebVTT files and as nothing else, and only they do; tables and JSON are for
/// segments alone; every other format is there for the transcript and for the segments.
pub proof fn every_format_has_its_styles(style: ExportStyle, format: ExportFormat)
    ensures
        format is Srt || format is Vtt ==> (is_supported(style, format) <==> style
            == ExportStyle::Subtitles),
        format is Csv || format is Json ==> (is_supported(style, format) <==> style
            == ExportStyle::Segments),
        format is Txt || format is Docx || format is Html || format is Pdf || format is Md ==> (
        is_supported(style, format) <==> style != ExportStyle::Subtitles),
{
}

/// The refusal of a combination names the format and the style, each by a word of its own.
pub proof fn a_refused_combination_is_named(style: ExportStyle, format: ExportFormat)
    ensures
        unsupported(style, format).code == "invalid_export"@,
        contains(unsupported(style, format).message, format_word(format)),
        contains(unsupported(style, format).message, style_word(style)),
        format is Srt ==> format_word(format) == "Srt"@,
        format is Vtt ==> format_word(format) == "Vtt"@,
        format is Csv ==> format_word(format) == "Csv"@,
        format is Json ==> format_word(format) == "Json"@,
        style is Subtitles ==> style_word(style) == "Subtitles"@ && style_name(style) == "subtitles"@,
        style is Transcript ==> style_word(style) == "Transcript"@ && style_name(style)
            == "transcript"@,
        style is Segments ==> style_word(style) == "Segments"@ && style_name(style) == "segments"@,
{
    let a = "format "@;
    let f = format_word(format);
    let b = " is not available for style "@;
    let w = style_word(style);
    lemma_contains_middle(a, f, b + w);
    assert(a + f + (b + w) =~= a + f + b + w);
    lemma_contains_middle(a + f + b, w, Seq::empty());
    assert(a + f + b + w + Seq::empty() =~= a + f + b + w);
}

// ---------------------------------------------------------------------------
// What is asked for
// ---------------------------------------------------------------------------

/// A request for a file.
#[derive(Debug)]
pub struct ExportArtifactPayload {
    pub id: String,
    pub format: ExportFormat,
    pub destination_path: String,
    pub language: Option<String>,
    pub style: Option<ExportStyle>,
    pub options: Option<ExportOptions>,
    pub segments: Option<Vec<ExportSegment>>,
    pub content_override: Option<String>,
    pub summary_override: Option<String>,
    pub faqs_override: Option<String>,
}

/// A request for a preview.
#[derive(Debug)]
pub struct PreviewArtifactExportPayload {
    pub id: String,
    pub format: ExportFormat,
    pub language: Option<String>,
    pub style: Option<ExportStyle>,
    pub options: Option<ExportOptions>,
    pub segments: Option<Vec<ExportSegment>>,
    pub content_override: Option<String>,
    pub summary_override: Option<String>,
    pub faqs_override: Option<String>,
}

/// What an export is prepared from.
#[derive(Debug)]
pub struct ExportPreparationInput {
    pub id: String,
    pub format: ExportFormat,
    pub language: Option<String>,
    pub style: Option<ExportStyle>,
    pub options: Option<ExportOptions>,
    pub segments: Option<Vec<ExportSegment>>,
    pub content_override: Option<String>,
    pub summary_override: Option<String>,
    pub faqs_override: Option<String>,
}

impl ExportPreparationInput {
    /// Takes what a request for a file asks for.
    pub fn from_export_payload(payload: ExportArtifactPayload) -> (r: ExportPreparationInput)
        ensures
            r == (ExportPreparationInput {
                id: payload.id,
                format: payload.format,
                language: payload.language,
                style: payload.style,
                options: payload.options,
                segments: payload.segments,
                content_override: payload.content_override,
                summary_override: payload.summary_override,
                faqs_override: payload.faqs_override,
            }),
    {
        ExportPreparationInput {
            id: payload.id,
            format: payload.format,
            language: payload.language,
            style: payload.style,
            options: payload.options,
            segments: payload.segments,
            content_override: payload.content_override,
            summary_override: payload.summary_override,
            faqs_override: payload.faqs_override,
        }
    }

    /// Takes what a request for a preview asks for.
    pub fn from_preview_payload(payload: PreviewArtifactExportPayload) -> (r: ExportPreparationInput)
        ensures
            r == (ExportPreparationInput {
                id: payload.id,
                format: payload.format,
                language: payload.language,
                style: payload.style,
                options: payload.options,
                segments: payload.segments,
                content_override: payload.content_override,
                summary_override: payload.summary_override,
                faqs_override: payload.faqs_override,
            }),
    {
        ExportPreparationInput {
            id: payload.id,
            format: payload.format,
            language: payload.language,
            style: payload.style,
            options: payload.options,
            segments: payload.segments,
            content_override: payload.content_override,
            summary_override: payload.summary_override,
            faqs_override: payload.faqs_override,
        }
    }
}

/// What of an artifact is exported.
#[derive(Debug)]
pub struct ArtifactContent {
    pub title: String,
    pub raw_transcript: String,
    pub optimized_transcript: String,
    pub summary: String,
    pub faqs: String,
    pub timeline: Vec<TimelineSegment>,
    pub study_pack: Option<String>,
    pub meeting_pack: Option<String>,
}

/// An export that is ready to be shown and written.
#[derive(Debug)]
pub struct PreparedArtifactExport {
    pub format: ExportFormat,
    pub language: &'static str,
    pub style: ExportStyle,
    pub options: ExportOptions,
    pub grouping: ExportGrouping,
    pub transcription: String,
    pub summary: String,
    pub faqs: String,
    pub segments: Vec<ExportSegment>,
    pub content: String,
    pub document: ExportDocument,
}

/// The content of a [`PreparedArtifactExport`].
pub struct PreparedView {
    pub format: ExportFormat,
    pub language: Seq<char>,
    pub style: ExportStyle,
    pub options: ExportOptions,
    pub grouping: ExportGrouping,
    pub transcription: Seq<char>,
    pub summary: Seq<char>,
    pub faqs: Seq<char>,
    pub segments: Seq<SegmentView>,
    pub content: Seq<char>,
    pub document: DocumentView,
}

impl View for PreparedArtifactExport {
    type V = PreparedView;

    open spec fn view(&self) -> PreparedView {
        PreparedView {
            format: self.format,
            language: self.language@,
            style: self.style,
            options: self.options,
            grouping: self.grouping,
            transcription: self.transcription@,
            summary: self.summary@,
            faqs: self.faqs@,
            segments: segment_views(self.segments@),
            content: self.content@,
            document: self.document@,
        }
    }
}

// ---------------------------------------------------------------------------
// Preparing
// ---------------------------------------------------------------------------

/// The style that is exported.
pub open spec fn style_of(input: ExportPreparationInput) -> ExportStyle {
    match input.style {
        Some(s) => s,
        None => ExportStyle::Transcript,
    }
}

/// The text that is exported: the one that is given, else the optimized transcript, else the raw
/// one; each trimmed, and only where it says anything.
pub open spec fn base_text(input: ExportPreparationInput, artifact: ArtifactContent) -> Seq<char> {
    if input.content_override is Some && trim(input.content_override->0@).len() > 0 {
        trim(input.content_override->0@)
    } else if trim(artifact.optimized_transcript@).len() > 0 {
        trim(artifact.optimized_transcript@)
    } else {
        trim(artifact.raw_transcript@)
    }
}

/// A text that is given, else the one of the artifact; trimmed.
pub open spec fn given_or(given: Option<String>, own: Seq<char>) -> Seq<char> {
    match given {
        Some(g) => trim(g@),
        None => trim(own),
    }
}

/// The options of an export.
pub open spec fn options_of(input: ExportPreparationInput) -> ExportOptions {
    match input.options {
        Some(o) => o,
        None => plain_export(),
    }
}

/// The segments that are exported: those that are given; those of the text, when that is given
/// without segments; else those of the artifact.
pub open spec fn segments_for(input: ExportPreparationInput, artifact: ArtifactContent) -> Seq<
    SegmentView,
> {
    let text = base_text(input, artifact);
    if input.segments is Some && input.segments->0@.len() > 0 {
        segment_views(input.segments->0@)
    } else if input.segments is Some && input.content_override is Some {
        segments_of_text(text)
    } else {
        export_segments(artifact.timeline@, text)
    }
}

/// Whether the segments that are exported are made of the text.
pub open spec fn splits_text(input: ExportPreparationInput, artifact: ArtifactContent) -> bool {
    &&& !(input.segments is Some && input.segments->0@.len() > 0)
    &&& input.segments is Some && input.content_override is Some || timeline_exports(
        artifact.timeline@,
    ).len() == 0
}

/// Why an export cannot be prepared, if it cannot.
pub open spec fn preparation_problem(
    input: ExportPreparationInput,
    artifact: Option<ArtifactContent>,
    colors: Result<TextMap, CommandError>,
) -> Option<CommandErrorView> {
    if !is_supported(style_of(input), input.format) {
        Some(unsupported(style_of(input), input.format))
    } else if artifact is None {
        Some(command_error("not_found"@, "artifact not found"@))
    } else if base_text(input, artifact->0).len() == 0 {
        Some(command_error("empty_content"@, "no transcription available to export"@))
    } else {
        match colors {
            Ok(_) => None,
            Err(e) => Some(e@),
        }
    }
}

/// The export that is prepared.
pub open spec fn prepared(
    input: ExportPreparationInput,
    artifact: ArtifactContent,
    colors: Map<Seq<char>, Seq<char>>,
) -> PreparedView {
    let style = style_of(input);
    let options = options_of(input);
    let language = export_language(opt_view(input.language));
    let text = base_text(input, artifact);
    let summary = given_or(input.summary_override, artifact.summary@);
    let faqs = given_or(input.faqs_override, artifact.faqs@);
    let segments = segments_for(input, artifact);
    PreparedView {
        format: input.format,
        language,
        style,
        options,
        grouping: match options.grouping {
            Some(g) => g,
            None => ExportGrouping::Ungrouped,
        },
        transcription: text,
        summary,
        faqs,
        segments,
        content: content(
            text,
            segments,
            style,
            options.include_timestamps,
            options.include_speaker_names,
        ),
        document: prepared_document(input, artifact, colors),
    }
}

/// The document of the export that is prepared.
pub open spec fn prepared_document(
    input: ExportPreparationInput,
    artifact: ArtifactContent,
    colors: Map<Seq<char>, Seq<char>>,
) -> DocumentView {
    let options = options_of(input);
    export_document(
        export_language(opt_view(input.language)),
        SourceView {
            title: artifact.title@,
            transcription: base_text(input, artifact),
            summary: given_or(input.summary_override, artifact.summary@),
            faqs: given_or(input.faqs_override, artifact.faqs@),
            study_pack: opt_view(artifact.study_pack),
            meeting_pack: opt_view(artifact.meeting_pack),
        },
        segments_for(input, artifact),
        style_of(input),
        options.include_timestamps,
        options.include_speaker_names,
        colors,
    )
}

/// What is exported is the text that was given where it says anything, else the optimized transcript
/// where that does, else the raw one. A summary and questions that were given replace the stored ones,
/// even by nothing.
pub proof fn given_texts_replace_stored_ones(input: ExportPreparationInput, artifact: ArtifactContent)
    ensures
        input.content_override is Some && inked(input.content_override->0@).len() > 0 ==> base_text(
            input,
            artifact,
        ) == trim(input.content_override->0@),
        (input.content_override is None || inked(input.content_override->0@).len() == 0) && inked(
            artifact.optimized_transcript@,
        ).len() > 0 ==> base_text(input, artifact) == trim(artifact.optimized_transcript@),
        (input.content_override is None || inked(input.content_override->0@).len() == 0) && inked(
            artifact.optimized_transcript@,
        ).len() == 0 ==> base_text(input, artifact) == trim(artifact.raw_transcript@),
        input.summary_override is Some ==> given_or(input.summary_override, artifact.summary@) == trim(
            input.summary_override->0@,
        ),
        input.summary_override is None ==> given_or(input.summary_override, artifact.summary@) == trim(
            artifact.summary@,
        ),
        input.segments is Some && input.segments->0@.len() > 0 ==> segments_for(input, artifact)
            == segment_views(input.segments->0@),
        input.segments is None ==> segments_for(input, artifact) == export_segments(
            artifact.timeline@,
            base_text(input, artifact),
        ),
        input.segments is Some && input.segments->0@.len() == 0 && input.content_override is Some
            ==> segments_for(input, artifact) == segments_of_text(base_text(input, artifact)),
{
    trimming_takes_white_only(artifact.optimized_transcript@);
    lemma_inked_edge(trim(artifact.optimized_transcript@));
    if input.content_override is Some {
        trimming_takes_white_only(input.content_override->0@);
        lemma_inked_edge(trim(input.content_override->0@));
    }
}

/// An export is prepared exactly when its style has the format, the artifact is there and there is text,
/// and the colours could be read. It keeps the format, the style and the options that were asked for,
/// and a transcript without options shows neither times nor groups.
pub proof fn an_export_is_what_was_asked_for(
    input: ExportPreparationInput,
    artifact: ArtifactContent,
    colors: Map<Seq<char>, Seq<char>>,
    found: Result<TextMap, CommandError>,
)
    ensures
        preparation_problem(input, Some(artifact), found) is None <==> is_supported(
            style_of(input),
            input.format,
        ) && base_text(input, artifact).len() > 0 && found is Ok,
        preparation_problem(input, None, found) is Some,
        ({
            let p = prepared(input, artifact, colors);
            &&& p.format == input.format
            &&& input.style is Some ==> p.style == input.style->0
            &&& input.style is None ==> p.style == ExportStyle::Transcript
            &&& input.options is Some ==> p.options == input.options->0
            &&& p.transcription == base_text(input, artifact)
            &&& p.segments == segments_for(input, artifact)
            &&& p.content == content(
                p.transcription,
                p.segments,
                p.style,
                p.options.include_timestamps,
                p.options.include_speaker_names,
            )
            &&& p.document.sections.len() >= 1
            &&& p.document.sections[0].body == p.content
            &&& input.summary_override is Some ==> p.summary == trim(input.summary_override->0@)
            &&& input.summary_override is None ==> p.summary == trim(artifact.summary@)
            &&& input.faqs_override is Some ==> p.faqs == trim(input.faqs_override->0@)
            &&& input.faqs_override is None ==> p.faqs == trim(artifact.faqs@)
            &&& input.options is Some && input.options->0.grouping is Some ==> p.grouping
                == input.options->0.grouping->0
        }),
{
}

fn choose_text(given: &Option<String>, own: &str) -> (r: String)
    ensures
        r@ == given_or(*given, own@),
{
    match given {
        Some(g) => trim_text(g.as_str()),
        None => trim_text(own),
    }
}

fn choose_base(input: &ExportPreparationInput, artifact: &ArtifactContent) -> (r: String)
    ensures
        r@ == base_text(*input, *artifact),
{
    if let Some(given) = &input.content_override {
        let trimmed: String = trim_text(given.as_str());
        if !trimmed.as_str().is_empty() {
            return trimmed;
        }
    }
    let optimized: String = trim_text(artifact.optimized_transcript.as_str());
    if !optimized.as_str().is_empty() {
        return optimized;
    }
    trim_text(artifact.raw_transcript.as_str())
}

/// Prepares an export. `artifact` is what is stored, if it was found; `speaker_colors` are those of
/// the settings, if they could be read.
pub fn prepare_artifact_export(
    input: ExportPreparationInput,
    artifact: &Option<ArtifactContent>,
    speaker_colors: Result<TextMap, CommandError>,
) -> (r: Result<PreparedArtifactExport, CommandError>)
    requires
        preparation_problem(input, *artifact, speaker_colors) is None && splits_text(
            input,
            artifact->0,
        ) ==> (text_lines(lines(base_text(input, artifact->0))).len() + 1)
            * DEFAULT_SEGMENT_SECONDS <= u32::MAX,
    ensures
        match preparation_problem(input, *artifact, speaker_colors) {
            Some(e) => r is Err && r->Err_0@ == e,
            None => r is Ok && r->Ok_0@ == prepared(
                input,
                artifact->0,
                speaker_colors->Ok_0@,
            ),
        },
{
    let ghost asked = input;
    let style: ExportStyle = match input.style {
        Some(s) => s,
        None => ExportStyle::Transcript,
    };
    match validate_export_combination(style, input.format) {
        Ok(()) => {},
        Err(error) => {
            return Err(error);
        },
    }
    let stored: &ArtifactContent = match artifact {
        Some(a) => a,
        None => {
            return Err(CommandError::new("not_found", "artifact not found"));
        },
    };
    let transcription: String = choose_base(&input, stored);
    if transcription.as_str().is_empty() {
        return Err(CommandError::new("empty_content", "no transcription available to export"));
    }
    let options: ExportOptions = match input.options {
        Some(o) => o,
        None => ExportOptions::default(),
    };
    let grouping: ExportGrouping = match options.grouping {
        Some(g) => g,
        None => ExportGrouping::Ungrouped,
    };
    let language: &'static str = match &input.language {
        Some(l) => normalize_export_language(Some(l.as_str())),
        None => normalize_export_language(None),
    };
    let summary: String = choose_text(&input.summary_override, stored.summary.as_str());
    let faqs: String = choose_text(&input.faqs_override, stored.faqs.as_str());
    let colors: TextMap = match speaker_colors {
        Ok(c) => c,
        Err(error) => {
            return Err(error);
        },
    };
    let overridden: bool = input.content_override.is_some();
    let segments: Vec<ExportSegment> = match input.segments {
        Some(entries) => {
            if entries.len() > 0 {
                entries
            } else if overridden {
                build_segments_from_text(transcription.as_str())
            } else {
                build_export_segments(&stored.timeline, transcription.as_str())
            }
        },
        None => build_export_segments(&stored.timeline, transcription.as_str()),
    };
    assert(segment_views(segments@) == segments_for(asked, *stored));
    let shown: String = build_export_content(
        transcription.as_str(),
        &segments,
        style,
        options.include_timestamps,
        options.include_speaker_names,
    );
    let source = DocumentSource {
        title: stored.title.clone(),
        transcription: transcription.clone(),
        summary: summary.clone(),
        faqs: faqs.clone(),
        study_pack: stored.study_pack.clone(),
        meeting_pack: stored.meeting_pack.clone(),
    };
    let document: ExportDocument = build_export_document(
        language,
        &source,
        &segments,
        style,
        options.include_timestamps,
        options.include_speaker_names,
        &colors,
    );
    Ok(
        PreparedArtifactExport {
            format: input.format,
            language,
            style,
            options,
            grouping,
            transcription,
            summary,
            faqs,
            segments,
            content: shown,
            document,
        },
    )
}

// ---------------------------------------------------------------------------
// Showing and writing
// ---------------------------------------------------------------------------

/// The content of a Markdown file.
pub open spec fn markdown_text(p: PreparedView) -> Seq<char> {
    if p.style == ExportStyle::Subtitles {
        markdown_subtitles(p.segments, p.transcription, p.options.include_speaker_names)
    } else {
        document_text(p.document, "# "@, "## "@, "\n\n"@)
    }
}

/// Writes the content of a Markdown file.
pub fn markdown_export_content(prepared: &PreparedArtifactExport) -> (r: String)
    ensures
        r@ == markdown_text(prepared@),
{
    if prepared.style == ExportStyle::Subtitles {
        build_markdown_subtitles_content(
            &prepared.segments,
            prepared.transcription.as_str(),
            prepared.options.include_speaker_names,
        )
    } else {
        render_markdown_document(&prepared.document)
    }
}

/// What a JSON file tells of an export, besides what identifies the artifact.
#[derive(Debug)]
pub struct JsonExport {
    pub style: &'static str,
    pub include_timestamps: bool,
    pub grouping: &'static str,
    pub include_speaker_names: bool,
    pub document_title: String,
    /// The title and the text of each section.
    pub sections: Vec<(String, String)>,
    pub content: String,
    pub summary: String,
    pub faqs: String,
    pub segments: Vec<ResolvedExportSegment>,
}

/// The titles and texts of sections.
pub open spec fn section_texts(sections: Seq<SectionView>) -> Seq<(Seq<char>, Seq<char>)> {
    sections.map_values(|s: SectionView| (s.title, s.body))
}

/// The texts of a list of pairs.
pub open spec fn text_pairs(v: Seq<(String, String)>) -> Seq<(Seq<char>, Seq<char>)> {
    v.map_values(|p: (String, String)| (p.0@, p.1@))
}

/// The name of a style in a JSON file.
pub open spec fn style_name(style: ExportStyle) -> Seq<char> {
    match style {
        ExportStyle::Transcript => "transcript"@,
        ExportStyle::Subtitles => "subtitles"@,
        ExportStyle::Segments => "segments"@,
    }
}

/// The name of a grouping in a JSON file.
pub open spec fn grouping_name(grouping: ExportGrouping) -> Seq<char> {
    match grouping {
        ExportGrouping::Ungrouped => "none"@,
        ExportGrouping::SpeakerParagraphs => "speaker_paragraphs"@,
    }
}

/// Gathers what a JSON file tells of an export: every segment has a start and an end, and its
/// speaker where speakers are shown.
pub fn render_json_content(prepared: &PreparedArtifactExport) -> (r: JsonExport)
    ensures
        r.style@ == style_name(prepared.style),
        r.include_timestamps == prepared.options.include_timestamps,
        r.grouping@ == grouping_name(prepared.grouping),
        prepared.grouping is Ungrouped ==> r.grouping@ == "none"@,
        prepared.grouping is SpeakerParagraphs ==> r.grouping@ == "speaker_paragraphs"@,
        r.include_speaker_names == prepared.options.include_speaker_names,
        r.document_title@ == prepared@.document.title,
        text_pairs(r.sections@) == section_texts(prepared@.document.sections),
        r.sections@.len() == prepared@.document.sections.len(),
        forall|i: int|
            0 <= i < r.sections@.len() ==> (#[trigger] r.sections@[i]).0@
                == prepared@.document.sections[i].title && r.sections@[i].1@
                == prepared@.document.sections[i].body,
        r.segments@.len() == prepared@.segments.len(),
        forall|i: int|
            0 <= i < r.segments@.len() ==> (#[trigger] r.segments@[i])@.line
                == prepared@.segments[i].line && r.segments@[i]@.time == prepared@.segments[i].time,
        r.content@ == prepared.content@,
        r.summary@ == prepared.summary@,
        r.faqs@ == prepared.faqs@,
        resolved_views(r.segments@) == Seq::new(
            prepared@.segments.len(),
            |i: int| resolved(prepared@.segments, i, prepared.options.include_speaker_names),
        ),
{
    let style: &'static str = match prepared.style {
        ExportStyle::Transcript => "transcript",
        ExportStyle::Subtitles => "subtitles",
        ExportStyle::Segments => "segments",
    };
    let grouping: &'static str = match prepared.grouping {
        ExportGrouping::Ungrouped => "none",
        ExportGrouping::SpeakerParagraphs => "speaker_paragraphs",
    };
    let list: &Vec<ExportDocumentSection> = &prepared.document.sections;
    let ghost all = section_texts(section_views(list@));
    let mut sections: Vec<(String, String)> = Vec::new();
    let mut i: usize = 0;
    while i < list.len()
        invariant
            i <= list@.len(),
            all == section_texts(section_views(list@)),
            text_pairs(sections@) =~= all.take(i as int),
        decreases list@.len() - i,
    {
        let ghost prior = text_pairs(sections@);
        let pair: (String, String) = (list[i].title.clone(), list[i].body.clone());
        sections.push(pair);
        proof {
            assert(text_pairs(sections@) =~= prior.push((pair.0@, pair.1@)));
            assert(section_views(list@)[i as int] == list@[i as int]@);
            assert(all[i as int] == (pair.0@, pair.1@));
        }
        i = i + 1;
    }
    let segments: Vec<ResolvedExportSegment> = resolved_export_segments(
        &prepared.segments,
        prepared.options.include_speaker_names,
    );
    proof {
        assert(all.take(i as int) =~= all);
        let wanted = prepared@.document.sections;
        assert(text_pairs(sections@).len() == sections@.len());
        assert(section_texts(wanted).len() == wanted.len());
        assert forall|k: int| 0 <= k < sections@.len() implies (#[trigger] sections@[k]).0@
            == wanted[k].title && sections@[k].1@ == wanted[k].body by {
            assert(text_pairs(sections@)[k] == section_texts(wanted)[k]);
        }
        assert(resolved_views(segments@).len() == segments@.len());
        assert forall|k: int| 0 <= k < segments@.len() implies (#[trigger] segments@[k])@.line
            == prepared@.segments[k].line && segments@[k]@.time == prepared@.segments[k].time by {
            assert(resolved_views(segments@)[k] == segments@[k]@);
        }
    }
    JsonExport {
        style,
        include_timestamps: prepared.options.include_timestamps,
        grouping,
        include_speaker_names: prepared.options.include_speaker_names,
        document_title: prepared.document.title.clone(),
        sections,
        content: prepared.content.clone(),
        summary: prepared.summary.clone(),
        faqs: prepared.faqs.clone(),
        segments,
    }
}

/// The content of a text file, for the formats that are one. That of a JSON file is `json`.
pub open spec fn text_file(p: PreparedView, json: Seq<char>) -> Option<Seq<char>> {
    match p.format {
        ExportFormat::Txt => Some(document_text(p.document, ""@, ""@, "\n"@)),
        ExportFormat::Md => Some(markdown_text(p)),
        ExportFormat::Srt => Some(p.content),
        ExportFormat::Vtt => Some(
            vtt_text(p.segments, p.transcription, p.options.include_speaker_names),
        ),
        ExportFormat::Csv => Some(
            csv_text(p.language, p.segments, p.options.include_speaker_names),
        ),
        ExportFormat::Json => Some(json),
        _ => None,
    }
}

fn write_text_file(prepared: &PreparedArtifactExport, json: &str) -> (r: Option<String>)
    ensures
        opt_view(r) == text_file(prepared@, json@),
{
    match prepared.format {
        ExportFormat::Txt => Some(render_plain_text_document(&prepared.document)),
        ExportFormat::Md => Some(markdown_export_content(prepared)),
        ExportFormat::Srt => Some(prepared.content.clone()),
        ExportFormat::Vtt => Some(
            build_vtt_content(
                &prepared.segments,
                prepared.transcription.as_str(),
                prepared.options.include_speaker_names,
            ),
        ),
        ExportFormat::Csv => Some(
            render_csv_content(
                prepared.language,
                &prepared.segments,
                prepared.options.include_speaker_names,
            ),
        ),
        ExportFormat::Json => Some(json.to_owned()),
        _ => None,
    }
}

/// The preview of an export: what a text file will hold, or the document as plain text.
pub open spec fn preview(p: PreparedView, json: Seq<char>) -> (Seq<char>, ExportPreviewMode) {
    match text_file(p, json) {
        Some(text) => (text, ExportPreviewMode::Exact),
        None => (document_text(p.document, ""@, ""@, "\n"@), ExportPreviewMode::Document),
    }
}

/// Shows an export. `json` is the content of a JSON file: what [`render_json_content`] gathers and
/// what identifies the artifact, as JSON text. It is used for that format only.
pub fn render_prepared_artifact_preview(prepared: &PreparedArtifactExport, json: &str) -> (r:
    ExportPreviewResponse)
    ensures
        (r.content@, r.mode) == preview(prepared@, json@),
{
    match write_text_file(prepared, json) {
        Some(content) => ExportPreviewResponse { content, mode: ExportPreviewMode::Exact },
        None => ExportPreviewResponse {
            content: render_plain_text_document(&prepared.document),
            mode: ExportPreviewMode::Document,
        },
    }
}

/// What a file holds.
pub enum ExportFile {
    Text(String),
    Docx(Docx),
    /// The pages.
    Pdf(Vec<Vec<PdfOp>>),
}

/// Whether a file holds what an export shows.
pub open spec fn is_file_of(file: ExportFile, p: PreparedView, json: Seq<char>) -> bool {
    match p.format {
        ExportFormat::Docx => file matches ExportFile::Docx(d) && docx_paragraphs(d)
            == document_paragraphs(p.document),
        ExportFormat::Pdf => file matches ExportFile::Pdf(pages) && page_views(pages@) == pdf_pages(
            p.document,
        ),
        ExportFormat::Html => file matches ExportFile::Text(t) && t@ == html_page(
            p.language,
            p.document,
        ),
        _ => file matches ExportFile::Text(t) && Some(t@) == text_file(p, json),
    }
}

/// Makes the content of a file.
pub fn write_prepared_artifact_export(prepared: &PreparedArtifactExport, json: &str) -> (r:
    ExportFile)
    ensures
        is_file_of(r, prepared@, json@),
{
    match prepared.format {
        ExportFormat::Docx => ExportFile::Docx(export_docx(&prepared.document)),
        ExportFormat::Pdf => ExportFile::Pdf(export_pdf(&prepared.document)),
        ExportFormat::Html => ExportFile::Text(export_html(prepared.language, &prepared.document)),
        _ => match write_text_file(prepared, json) {
            Some(text) => ExportFile::Text(text),
            None => ExportFile::Text(String::new()),
        },
    }
}

/// A preview that says that it is exact is what the file holds.
pub proof fn an_exact_preview_is_the_file(p: PreparedView, json: Seq<char>, file: ExportFile)
    requires
        preview(p, json).1 == ExportPreviewMode::Exact,
        is_file_of(file, p, json),
    ensures
        file matches ExportFile::Text(t) && t@ == preview(p, json).0,
{
}

/// A text file is what its format says: plain text and Markdown begin with the title, a SubRip file is the
/// content, a WebVTT file and a table begin with their headings, and a JSON file is the JSON that is
/// given. The other formats are no text files, and are previewed by the document as plain text.
pub proof fn a_text_file_is_of_its_format(p: PreparedView, json: Seq<char>)
    ensures
        text_file(p, json) is None <==> p.format is Docx || p.format is Html || p.format is Pdf,
        p.format is Srt ==> text_file(p, json) == Some(p.content),
        p.format is Json ==> text_file(p, json) == Some(json),
        p.format is Vtt ==> starts_with(
            text_file(p, json)->0,
            seq!['W', 'E', 'B', 'V', 'T', 'T', '\n', '\n'],
        ),
        p.format is Csv ==> starts_with(
            text_file(p, json)->0,
            csv_header(p.language, p.options.include_speaker_names),
        ),
        p.format is Txt ==> starts_with(text_file(p, json)->0, trim(p.document.title)),
        p.format is Md && p.style != ExportStyle::Subtitles ==> starts_with(
            text_file(p, json)->0,
            seq!['#', ' '] + trim(p.document.title),
        ),
        text_file(p, json) is None ==> preview(p, json).1 == ExportPreviewMode::Document && starts_with(
            preview(p, json).0,
            trim(p.document.title),
        ),
        text_file(p, json) is Some ==> preview(p, json) == (
            text_file(p, json)->0,
            ExportPreviewMode::Exact,
        ),
{
    reveal_strlit("WEBVTT\n\n");
    reveal_strlit("");
    reveal_strlit("# ");
    if p.format is Vtt {
        let file = text_file(p, json)->0;
        assert(file.take(8) =~= seq!['W', 'E', 'B', 'V', 'T', 'T', '\n', '\n']);
    }
    if p.format is Csv {
        let file = text_file(p, json)->0;
        let head = csv_header(p.language, p.options.include_speaker_names);
        assert(file.take(head.len() as int) =~= head);
    }
    lemma_text_begins(p.document, ""@, ""@, "\n"@);
    lemma_text_begins(p.document, "# "@, "## "@, "\n\n"@);
    assert(""@ + trim(p.document.title) =~= trim(p.document.title));
    assert("# "@ =~= seq!['#', ' ']);
}

proof fn lemma_text_begins(
    document: DocumentView,
    title_mark: Seq<char>,
    section_mark: Seq<char>,
    between: Seq<char>,
)
    ensures
        starts_with(
            document_text(document, title_mark, section_mark, between),
            title_mark + trim(document.title),
        ),
{
    let head = title_mark + trim(document.title);
    let list = blocks(document.sections, document.sections.len() as int, section_mark, between);
    let all = document_text(document, title_mark, section_mark, between);
    if list.len() == 0 {
        assert(seq![head] + list =~= seq![head]);
        assert(join(seq![head], "\n\n"@) =~= head);
    } else {
        lemma_join_first(head, list, "\n\n"@);
    }
    assert(all.take(head.len() as int) =~= head);
}

} // verus!
