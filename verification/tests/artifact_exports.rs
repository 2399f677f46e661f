//! Exports: segments, documents and files.

use std::io::{Cursor, Read};

use sbobino_commands::artifacts::export::content::{
    build_export_content, build_markdown_subtitles_content, build_vtt_content, format_mm_ss_millis,
    format_srt_time, format_vtt_time, localized_export_csv_header, quote_csv_cell,
    render_csv_content,
};
use sbobino_commands::artifacts::export::document::{
    build_export_document, normalize_export_language, render_markdown_document,
    render_plain_text_document, DocumentSource, ExportDocument, ExportDocumentSection,
    ExportStyledLine,
};
use sbobino_commands::artifacts::export::docx::export_docx;
use sbobino_commands::artifacts::export::html::{escape_html, export_html};
use sbobino_commands::artifacts::export::pdf::{export_pdf, PdfOp};
use sbobino_commands::artifacts::export::prepare::{
    prepare_artifact_export, render_json_content, render_prepared_artifact_preview,
    validate_export_combination, write_prepared_artifact_export, ArtifactContent,
    ExportArtifactPayload, ExportFile, ExportPreparationInput, JsonExport, PreparedArtifactExport, PreviewArtifactExportPayload,
};
use sbobino_commands::artifacts::export::segments::{
    build_export_segments, build_segments_from_text, clock_at, parse_timestamp_to_seconds,
    resolve_segment_timings, ClockTime, ExportSegment, TimelineSegment,
};
use sbobino_commands::artifacts::export::speakers::{
    default_speaker_color_for_key, normalize_speaker_color_key, parse_hex_rgb,
    resolve_export_speaker_color, sanitize_speaker_color_value,
};
use sbobino_commands::artifacts::payloads::{
    ExportFormat, ExportGrouping, ExportOptions, ExportPreviewMode, ExportStyle,
};
use sbobino_commands::error::CommandError;
use sbobino_commands::text_map::TextMap;
use serde_json::Value;

fn clock(seconds: f64) -> ClockTime {
    ClockTime {
        seconds: seconds.floor() as u64,
        fraction_rank: seconds.fract().to_bits(),
        millis: (seconds * 1000.0).round() as u64,
        default_end_millis: ((seconds + 4.0) * 1000.0).round() as u64,
    }
}

fn label_clock(label: &str) -> ClockTime {
    match parse_timestamp_to_seconds(label) {
        None => clock(0.0),
        Some((hh, mm, ss)) => {
            let part = |text: String| text.parse::<f64>().unwrap_or(0.0);
            clock((part(hh) * 3600.0 + part(mm) * 60.0 + part(ss)).max(0.0))
        }
    }
}

fn segment(time: &str, line: &str, start: Option<f64>, end: Option<f64>) -> ExportSegment {
    ExportSegment {
        time: time.to_string(),
        line: line.to_string(),
        label_start: label_clock(time),
        start: start.map(clock),
        end: end.map(clock),
        speaker_id: None,
        speaker_label: None,
    }
}

fn timeline() -> Vec<TimelineSegment> {
    let entry = |text: &str, label: &str, start: f32, id: &str, name: &str| TimelineSegment {
        text: text.to_string(),
        time_label: Some(label.to_string()),
        label_start: label_clock(label),
        start: Some(clock(f64::from(start))),
        end: None,
        speaker_id: Some(id.to_string()),
        speaker_label: Some(name.to_string()),
    };
    vec![
        entry("Alice opens the meeting.", "00:12", 12.4, "speaker_1", "Alice"),
        entry("Bob confirms the next step.", "00:24", 24.9, "speaker_2", "Bob"),
    ]
}

fn source(title: &str, transcription: &str, summary: &str, faqs: &str) -> DocumentSource {
    DocumentSource {
        title: title.to_string(),
        transcription: transcription.to_string(),
        summary: summary.to_string(),
        faqs: faqs.to_string(),
        study_pack: None,
        meeting_pack: None,
    }
}

fn one_color() -> TextMap {
    let mut colors = TextMap::new();
    colors.insert("speaker_1", "#123456");
    colors
}

fn text_of(file: ExportFile) -> String {
    match file {
        ExportFile::Text(text) => text,
        _ => panic!("a text file was expected"),
    }
}

#[test]
fn export_segments_use_timeline_and_keep_one_line_per_segment() {
    let segments = build_export_segments(&timeline(), "fallback transcript");

    assert_eq!(segments.len(), 2);
    assert_eq!(segments[0].time, "00:12");
    assert_eq!(segments[0].line, "Alice opens the meeting.");
    assert_eq!(segments[0].speaker_id.as_deref(), Some("speaker_1"));

    let content =
        build_export_content("fallback transcript", &segments, ExportStyle::Segments, true, true);

    assert_eq!(segments[0].speaker_label.as_deref(), Some("Alice"));
    assert!(content.contains("[00:12] Alice: Alice opens the meeting."));
    assert!(content.contains("[00:24] Bob: Bob confirms the next step."));
    assert!(!content.contains("[00:12]\nAlice opens the meeting."));
}

#[test]
fn export_document_styles_segment_lines_with_speaker_colors() {
    let segments = build_export_segments(&timeline(), "fallback transcript");

    let document = build_export_document(
        "en",
        &source("Sample", "fallback transcript", "", ""),
        &segments,
        ExportStyle::Segments,
        true,
        true,
        &one_color(),
    );

    let styled_lines = document.sections[0]
        .styled_lines
        .as_ref()
        .expect("primary section should expose styled lines");
    assert_eq!(styled_lines[0].text, "[00:12] Alice: Alice opens the meeting.");
    assert_eq!(styled_lines[0].speaker_color.as_deref(), Some("#123456"));
    assert!(styled_lines[1]
        .speaker_color
        .as_deref()
        .expect("speaker color fallback should exist")
        .starts_with('#'));
}

#[test]
fn export_with_content_override_and_empty_segments_generates_segments_from_override() {
    let base_transcription = "Optimized first line.\nOptimized second line.";
    let payload_segments = Some(Vec::<ExportSegment>::new());

    let segments = match payload_segments {
        Some(entries) if !entries.is_empty() => entries,
        Some(_) => build_segments_from_text(base_transcription),
        None => build_export_segments(&timeline(), base_transcription),
    };

    assert_eq!(segments.len(), 2);
    assert_eq!(segments[0].time, "00:00");
    assert_eq!(segments[0].line, "Optimized first line.");
    assert_eq!(segments[1].time, "00:04");
    assert_eq!(segments[1].line, "Optimized second line.");
}

fn prepared_transcript() -> PreparedArtifactExport {
    let document = build_export_document(
        "en",
        &source("Meeting", "Clean edited transcript.", "Short summary.", ""),
        &Vec::new(),
        ExportStyle::Transcript,
        false,
        false,
        &TextMap::new(),
    );
    PreparedArtifactExport {
        format: ExportFormat::Txt,
        language: "en",
        style: ExportStyle::Transcript,
        options: ExportOptions::default(),
        grouping: ExportGrouping::Ungrouped,
        transcription: "Clean edited transcript.".to_string(),
        summary: "Short summary.".to_string(),
        faqs: String::new(),
        segments: Vec::new(),
        content: "Clean edited transcript.".to_string(),
        document,
    }
}

#[test]
fn prepared_raw_transcript_is_previewed_and_written_exactly_once() {
    let prepared = prepared_transcript();
    let preview = render_prepared_artifact_preview(&prepared, "");
    let exported = text_of(write_prepared_artifact_export(&prepared, ""));

    assert_eq!(preview.content, exported);
    assert_eq!(exported.matches("Transcript of Meeting").count(), 1);
    assert_eq!(exported.matches("Clean edited transcript.").count(), 1);
    assert_eq!(exported.matches("Summary\nShort summary.").count(), 1);
}

#[test]
fn subtitle_fallback_ends_at_the_next_segment_start() {
    let segments =
        vec![segment("00:00", "One.", None, None), segment("00:05", "Two.", None, None)];

    let content =
        build_export_content("One. Two.", &segments, ExportStyle::Subtitles, true, false);

    assert!(content.contains("00:00:00,000 --> 00:00:05,000"));
    assert!(content.contains("00:00:05,000 --> 00:00:09,000"));
    assert!(!content.contains("00:00:11,000"));
}

#[test]
fn subtitle_explicit_end_preserves_fractional_overlap() {
    let segments = vec![
        segment("00:00", "Overlapping first cue.", Some(0.125), Some(8.5)),
        segment("00:05", "Second cue.", Some(5.0), Some(6.25)),
    ];

    let srt = build_export_content(
        "Overlapping first cue. Second cue.",
        &segments,
        ExportStyle::Subtitles,
        true,
        false,
    );
    let vtt = build_vtt_content(&segments, "", false);

    assert!(srt.contains("00:00:00,125 --> 00:00:08,500"));
    assert!(srt.contains("00:00:05,000 --> 00:00:06,250"));
    assert!(vtt.contains("00:00:00.125 --> 00:00:08.500"));
}

#[test]
fn a_segment_lasts_a_millisecond_at_least() {
    let timings = resolve_segment_timings(&vec![
        segment("00:00", "One.", Some(2.0), Some(1.0)),
        segment("00:00", "Two.", Some(2.0001), Some(2.0002)),
    ]);
    assert_eq!((timings[0].start_millis, timings[0].end_millis), (2000, 2001));
    assert_eq!((timings[1].start_millis, timings[1].end_millis), (2000, 2001));
    let last = resolve_segment_timings(&vec![segment("00:00", "One.", Some(1.5), None)]);
    assert_eq!((last[0].start_millis, last[0].end_millis), (1500, 5500));
}

#[test]
fn csv_is_localized_escaped_and_uses_resolved_bounds() {
    let mut row = segment("01:00", "He said \"yes\"", Some(60.25), Some(62.75));
    row.speaker_id = Some("speaker_1".to_string());
    row.speaker_label = Some("A \"B\"".to_string());

    let csv = render_csv_content("it", &vec![row], true);

    assert!(csv.starts_with("Timestamp inizio;Timestamp fine;Trascrizione;Speaker\n"));
    assert!(csv.contains("01:00;01:02;\"He said \"\"yes\"\"\";\"A \"\"B\"\"\""));
    assert!(!csv.contains("00:71"));
    assert_eq!(quote_csv_cell("a\"b"), "\"a\"\"b\"");
}

#[test]
fn export_format_validation_matches_the_ui_matrix() {
    assert!(validate_export_combination(ExportStyle::Transcript, ExportFormat::Pdf).is_ok());
    assert!(validate_export_combination(ExportStyle::Subtitles, ExportFormat::Vtt).is_ok());
    assert!(validate_export_combination(ExportStyle::Segments, ExportFormat::Json).is_ok());
    assert!(validate_export_combination(ExportStyle::Transcript, ExportFormat::Json).is_err());
    assert!(validate_export_combination(ExportStyle::Subtitles, ExportFormat::Pdf).is_err());
}

#[test]
fn export_document_localizes_title_and_includes_summary_and_faqs() {
    let segments = vec![segment("00:00", "Linea uno", None, None)];

    let document = build_export_document(
        "it",
        &source("Riunione team", "Linea uno", "Sintesi breve", "D: Chi segue?\nR: Marta."),
        &segments,
        ExportStyle::Segments,
        true,
        false,
        &TextMap::new(),
    );

    assert_eq!(document.title, "Trascrizione di Riunione team");
    assert_eq!(document.sections[0].title, "Segmenti");
    assert_eq!(document.sections[1].title, "Riassunto");
    assert_eq!(document.sections[2].title, "Domande frequenti");

    let plain_text = render_plain_text_document(&document);
    assert!(plain_text.contains("Trascrizione di Riunione team"));
    assert!(plain_text.contains("Segmenti\n[00:00] Linea uno"));
    assert!(plain_text.contains("Riassunto\nSintesi breve"));
    assert!(plain_text.contains("Domande frequenti\nD: Chi segue?\nR: Marta."));
}

fn document_xml(document: &ExportDocument) -> String {
    let mut bytes = Cursor::new(Vec::new());
    export_docx(document).build().pack(&mut bytes).expect("docx export");
    let mut archive = zip::ZipArchive::new(bytes).expect("DOCX zip archive");
    let mut xml = String::new();
    archive
        .by_name("word/document.xml")
        .expect("DOCX document XML")
        .read_to_string(&mut xml)
        .expect("read DOCX document XML");
    xml
}

fn shown_texts(pages: &Vec<Vec<PdfOp>>) -> Vec<&str> {
    pages
        .iter()
        .flatten()
        .filter_map(|op| match op {
            PdfOp::WriteText(text) => Some(text.as_str()),
            _ => None,
        })
        .collect()
}

#[test]
fn export_writers_create_all_supported_formats() {
    let segments = build_export_segments(&timeline(), "fallback transcript");
    let document = build_export_document(
        "en",
        &source(
            "Sample",
            "fallback transcript",
            "Short summary",
            "Q: Next?\nA: Follow up.",
        ),
        &segments,
        ExportStyle::Segments,
        true,
        true,
        &one_color(),
    );

    let txt = render_plain_text_document(&document);
    assert!(txt.contains("[00:12] Alice: Alice opens the meeting."));

    let md = render_markdown_document(&document);
    assert!(md.contains("## Segments"));

    let csv = render_csv_content("en", &segments, true);
    assert!(csv.contains("Transcript;Speaker"));

    let html = export_html("en", &document);
    assert!(html.contains("<!doctype html>"));
    assert!(html.contains("<span style=\"color:#123456\">[00:12] Alice:"));

    let xml = document_xml(&document);
    assert!(xml.contains("Alice opens the meeting."));
    assert!(xml.contains("Short summary"));

    let pages = export_pdf(&document);
    assert!(shown_texts(&pages).iter().any(|text| text.contains("Alice opens the meeting.")));

    let srt =
        build_export_content("fallback transcript", &segments, ExportStyle::Subtitles, true, true);
    assert!(srt.contains("00:00:12,400 --> 00:00:24,900"));

    let vtt = build_vtt_content(&segments, "fallback transcript", true);
    assert!(vtt.starts_with("WEBVTT"));
}

#[test]
fn docx_paragraphs_keep_their_text_and_color() {
    let section = ExportDocumentSection {
        title: "Segments".to_string(),
        body: "ignored".to_string(),
        styled_lines: Some(vec![
            ExportStyledLine {
                text: "Alice <speaks>".to_string(),
                speaker_color: Some("#A1B2C3".to_string()),
            },
            ExportStyledLine { text: "plain".to_string(), speaker_color: None },
        ]),
    };
    let xml = document_xml(&ExportDocument { title: "Title".to_string(), sections: vec![section] });
    assert!(xml.contains("Alice &lt;speaks&gt;"));
    assert!(xml.to_uppercase().contains("A1B2C3"));
    assert!(xml.contains("Title") && xml.contains("plain"));
}

#[test]
fn pages_show_every_word_of_a_long_document() {
    let line = "Città naïve Überprüfung Ελληνικά Кириллица: una riga lunga mantiene ogni parola.";
    let body = vec![line; 180].join("\n");
    let document = ExportDocument {
        title: "Trascrizione Unicode".to_string(),
        sections: vec![ExportDocumentSection {
            title: "Trascrizione".to_string(),
            body,
            styled_lines: None,
        }],
    };
    let pages = export_pdf(&document);
    assert!(pages.len() >= 2);
    let words = shown_texts(&pages).join(" ");
    assert_eq!(words.matches("Кириллица:").count(), 180);
    assert_eq!(words.matches("Trascrizione Unicode").count(), 1);
    for page in &pages {
        for op in page {
            if let PdfOp::MoveTo { y, .. } = op {
                assert!(*y > 0);
            }
        }
    }
}

#[test]
fn markup_is_escaped() {
    assert_eq!(escape_html("<a href=\"x\">&'"), "&lt;a href=&quot;x&quot;&gt;&amp;&#39;");
}

#[test]
fn escaped_text_can_be_read_back() {
    let read = |text: &str| {
        text.replace("&lt;", "<")
            .replace("&gt;", ">")
            .replace("&quot;", "\"")
            .replace("&#39;", "'")
            .replace("&amp;", "&")
    };
    for text in ["a < b & c", "&lt; is not <", "\"it's\" &amp;amp;", ""] {
        assert_eq!(read(&escape_html(text)), text);
    }
    assert_eq!(escape_html("&lt;"), "&amp;lt;");
}

#[test]
fn different_times_look_different() {
    assert_ne!(format_srt_time(59_999), format_srt_time(60_000));
    assert_eq!(format_srt_time(360_000_001), "100:00:00,001");
    for millis in [0, 7, 59_999, 3_600_000, 360_000_001] {
        assert_eq!(format_vtt_time(millis), format_srt_time(millis).replace(',', "."));
    }
}

#[test]
fn csv_headers_name_the_columns() {
    for language in ["it", "es", "de", "en", "fr"] {
        let plain = localized_export_csv_header(language, false);
        let spoken = localized_export_csv_header(language, true);
        let columns: Vec<&str> = spoken.split(';').collect();
        assert_eq!(columns.len(), 4);
        assert_eq!(plain, columns[..3].join(";"));
    }
    assert_eq!(localized_export_csv_header("de", true).split(';').last(), Some("Sprecher"));
}

#[test]
fn the_key_of_a_speaker_key_is_that_key() {
    for name in ["  Speaker One ", "__Ann__", "!!!", "A-b", "speaker"] {
        let key = normalize_speaker_color_key(name);
        assert!(!key.is_empty() && !key.starts_with('_') && !key.ends_with('_'));
        assert_eq!(normalize_speaker_color_key(&key), key);
    }
    assert_eq!(normalize_speaker_color_key("!!!"), "speaker");
}

#[test]
fn times_are_written_for_each_format() {
    assert_eq!(format_mm_ss_millis(62_750), "01:02");
    assert_eq!(format_srt_time(3_725_042), "01:02:05,042");
    assert_eq!(format_vtt_time(3_725_042), "01:02:05.042");
    assert_eq!(clock_at(7), clock(7.0));
    assert!(!clock_at(7).is_later_than(clock_at(7)));
    assert!(clock(7.25).is_later_than(clock(7.125)));
}

#[test]
fn subtitles_without_segments_show_the_transcript() {
    let md = build_markdown_subtitles_content(&Vec::new(), "All of it.", false);
    assert!(md.contains("All of it."));
    let vtt = build_vtt_content(&Vec::new(), "All of it.", false);
    assert!(vtt.starts_with("WEBVTT") && vtt.contains("All of it."));
}

#[test]
fn speaker_colors_fall_back_to_the_palette() {
    assert_eq!(normalize_speaker_color_key("  Speaker One "), "speaker_one");
    assert_eq!(sanitize_speaker_color_value(" #AbCdEf "), Some("#ABCDEF".to_string()));
    assert_eq!(sanitize_speaker_color_value("red"), None);
    assert_eq!(parse_hex_rgb("#0a0B0c"), Some((10, 11, 12)));
    assert_eq!(parse_hex_rgb("#0a0"), None);
    let color = default_speaker_color_for_key("alice");
    assert_eq!(color, default_speaker_color_for_key("alice"));
    assert!(parse_hex_rgb(&color).is_some());
    let mut spoken = segment("00:00", "Hi.", None, None);
    assert_eq!(resolve_export_speaker_color(&spoken, &one_color()), None);
    spoken.speaker_id = Some("speaker_1".to_string());
    spoken.speaker_label = Some("Alice".to_string());
    assert_eq!(resolve_export_speaker_color(&spoken, &one_color()), Some("#123456".to_string()));
}

fn preparation(format: ExportFormat, style: Option<ExportStyle>) -> ExportPreparationInput {
    ExportPreparationInput::from_preview_payload(PreviewArtifactExportPayload {
        id: "id-1".to_string(),
        format,
        language: Some("it".to_string()),
        style,
        options: Some(ExportOptions {
            include_timestamps: true,
            grouping: None,
            include_speaker_names: true,
        }),
        segments: None,
        content_override: None,
        summary_override: Some("Bozza".to_string()),
        faqs_override: None,
    })
}

fn content() -> ArtifactContent {
    ArtifactContent {
        title: "Riunione".to_string(),
        raw_transcript: "Grezzo.".to_string(),
        optimized_transcript: "Pulito.".to_string(),
        summary: "Vecchio".to_string(),
        faqs: String::new(),
        timeline: timeline(),
        study_pack: None,
        meeting_pack: None,
    }
}

#[test]
fn an_export_is_prepared_from_the_artifact_and_the_overrides() {
    let prepared = prepare_artifact_export(
        preparation(ExportFormat::Csv, Some(ExportStyle::Segments)),
        &Some(content()),
        Ok(one_color()),
    )
    .expect("an export");
    assert_eq!(prepared.language, "it");
    assert_eq!(prepared.summary, "Bozza");
    assert_eq!(prepared.segments.len(), 2);
    let preview = render_prepared_artifact_preview(&prepared, "");
    assert_eq!(preview.mode, ExportPreviewMode::Exact);
    assert_eq!(preview.content, text_of(write_prepared_artifact_export(&prepared, "")));
}

/// The JSON text of an export of an artifact with this id.
fn json_text(id: &str, export: &JsonExport) -> String {
    let seconds = |millis: u64| Value::from(millis as f64 / 1000.0);
    let text = |value: &str| Value::from(value);
    let mut root = serde_json::Map::new();
    root.insert("id".to_string(), text(id));
    root.insert("style".to_string(), text(export.style));
    root.insert("grouping".to_string(), text(export.grouping));
    root.insert("document_title".to_string(), text(&export.document_title));
    root.insert("summary".to_string(), text(&export.summary));
    let mut segments = Vec::new();
    for entry in &export.segments {
        let mut row = serde_json::Map::new();
        row.insert("line".to_string(), text(&entry.line));
        row.insert("start_seconds".to_string(), seconds(entry.timing.start_millis));
        row.insert("end_seconds".to_string(), seconds(entry.timing.end_millis));
        row.insert("speaker_label".to_string(), Value::from(entry.speaker_label.clone()));
        segments.push(Value::Object(row));
    }
    root.insert("segments".to_string(), Value::Array(segments));
    serde_json::to_string_pretty(&Value::Object(root)).expect("JSON text")
}

#[test]
fn rich_json_preview_matches_written_output_and_adds_resolved_bounds() {
    let mut spoken = segment("00:00", "He said yes.", Some(0.125), Some(2.75));
    spoken.speaker_id = Some("speaker_1".to_string());
    spoken.speaker_label = Some("Alice".to_string());
    let segments = vec![spoken];
    let document = build_export_document(
        "en",
        &source("Meeting", "He said yes.", "Draft summary", ""),
        &segments,
        ExportStyle::Segments,
        true,
        true,
        &TextMap::new(),
    );
    let prepared = PreparedArtifactExport {
        format: ExportFormat::Json,
        language: "en",
        style: ExportStyle::Segments,
        options: ExportOptions {
            include_timestamps: true,
            grouping: Some(ExportGrouping::Ungrouped),
            include_speaker_names: true,
        },
        grouping: ExportGrouping::Ungrouped,
        transcription: "He said yes.".to_string(),
        summary: "Draft summary".to_string(),
        faqs: String::new(),
        segments,
        content: "[00:00] Alice: He said yes.".to_string(),
        document,
    };

    let export = render_json_content(&prepared);
    assert_eq!(export.sections[0].0, "Segments");
    let json = json_text("id-1", &export);
    let preview = render_prepared_artifact_preview(&prepared, &json);
    let written = text_of(write_prepared_artifact_export(&prepared, &json));
    let payload: Value = serde_json::from_str(&written).expect("rich JSON object");

    assert_eq!(preview.content, written);
    assert!(payload.is_object());
    assert_eq!(payload["summary"], "Draft summary");
    assert_eq!(payload["segments"][0]["start_seconds"], 0.125);
    assert_eq!(payload["segments"][0]["end_seconds"], 2.75);
    assert_eq!(payload["document_title"], "Transcript of Meeting");
    assert!(written.contains("\"style\": \"segments\""));
    assert!(written.contains("\"speaker_label\": \"Alice\""));
}

#[test]
fn json_previews_are_the_written_file() {
    let prepared = prepare_artifact_export(
        preparation(ExportFormat::Json, Some(ExportStyle::Segments)),
        &Some(content()),
        Ok(TextMap::new()),
    )
    .expect("an export");
    let json = "{\n  \"version\": 1\n}";
    assert_eq!(render_prepared_artifact_preview(&prepared, json).content, json);
    assert_eq!(text_of(write_prepared_artifact_export(&prepared, json)), json);
}

#[test]
fn exports_that_cannot_be_prepared_are_refused() {
    let missing = prepare_artifact_export(
        preparation(ExportFormat::Txt, Some(ExportStyle::Transcript)),
        &None,
        Ok(TextMap::new()),
    );
    assert_eq!(missing.expect_err("no artifact").code, "not_found");
    let wrong = prepare_artifact_export(
        preparation(ExportFormat::Json, Some(ExportStyle::Transcript)),
        &Some(content()),
        Ok(TextMap::new()),
    );
    assert!(wrong.is_err());
    let broken = prepare_artifact_export(
        preparation(ExportFormat::Txt, Some(ExportStyle::Transcript)),
        &Some(content()),
        Err(CommandError::new("settings", "broken")),
    );
    assert_eq!(broken.expect_err("no settings").code, "settings");
}

#[test]
fn export_languages_are_reduced_to_known_ones() {
    assert_eq!(normalize_export_language(Some(" it ")), "it");
    assert_eq!(normalize_export_language(Some("xx")), "en");
    assert_eq!(normalize_export_language(None), "en");
}

#[test]
fn an_export_request_hands_on_all_but_its_destination() {
    let input = ExportPreparationInput::from_export_payload(ExportArtifactPayload {
        id: "artifact-9".to_string(),
        format: ExportFormat::Csv,
        destination_path: "/tmp/out.csv".to_string(),
        language: Some("it".to_string()),
        style: Some(ExportStyle::Segments),
        options: Some(ExportOptions {
            include_timestamps: true,
            grouping: Some(ExportGrouping::SpeakerParagraphs),
            include_speaker_names: true,
        }),
        segments: Some(vec![segment("00:01", "one", None, None)]),
        content_override: Some("c".to_string()),
        summary_override: None,
        faqs_override: Some("f".to_string()),
    });
    assert_eq!(input.id, "artifact-9");
    assert_eq!(input.format, ExportFormat::Csv);
    assert_eq!(input.language.as_deref(), Some("it"));
    assert_eq!(input.style, Some(ExportStyle::Segments));
    assert!(input.options.unwrap().include_timestamps);
    assert_eq!(input.segments.unwrap().len(), 1);
    assert_eq!(input.content_override.as_deref(), Some("c"));
    assert!(input.summary_override.is_none());
    assert_eq!(input.faqs_override.as_deref(), Some("f"));
}

#[test]
fn a_word_document_holds_its_texts_without_line_ends() {
    let xml = document_xml(&ExportDocument {
        title: "a\rb\nc".to_string(),
        sections: vec![ExportDocumentSection {
            title: "<x> & \"y\"".to_string(),
            body: "one\rtwo".to_string(),
            styled_lines: None,
        }],
    });
    assert!(xml.contains(">abc<"));
    assert!(!xml.contains('\r'));
    assert!(xml.contains("&lt;x&gt; &amp; &quot;y&quot;"));
    assert!(xml.contains(">onetwo<"));
}
