//! What the commands on transcripts take and give.

use vstd::prelude::*;
use vstd::string::*;

use crate::domain::ArtifactKind;

verus! {

/// The default language of a summary.
pub fn default_summary_language() -> (r: String)
    ensures
        r@ == "en"@,
{
    "en".to_owned()
}

/// Summaries have sections by default.
pub fn default_summary_sections() -> (r: bool)
    ensures
        r,
{
    true
}

/// Summaries list action items by default.
pub fn default_summary_action_items() -> (r: bool)
    ensures
        r,
{
    true
}

/// Summaries are not kept to key points by default.
pub fn default_summary_key_points_only() -> (r: bool)
    ensures
        !r,
{
    false
}

/// Speaker dynamics are analyzed by default.
pub fn default_emotion_speaker_dynamics() -> (r: bool)
    ensures
        r,
{
    true
}

/// A chat prompt is typed unless said otherwise.
pub fn default_chat_origin() -> (r: String)
    ensures
        r@ == "typed"@,
{
    "typed".to_owned()
}

/// What of the timeline the AI is shown.
#[derive(Clone, Copy, PartialEq, Eq, Structural, Debug)]
pub struct ArtifactAiContextOptions {
    pub include_timestamps: bool,
    pub include_speakers: bool,
}

/// Which artifacts are listed.
#[derive(Debug)]
pub struct ListArtifactsPayload {
    pub kind: Option<ArtifactKind>,
    pub query: Option<String>,
    pub limit: Option<usize>,
    pub offset: Option<usize>,
}

#[derive(Debug)]
pub struct GetArtifactPayload {
    pub id: String,
}

#[derive(Debug)]
pub struct UpdateArtifactPayload {
    pub id: String,
    pub optimized_transcript: String,
    pub summary: String,
    pub faqs: String,
}

#[derive(Debug)]
pub struct UpdateArtifactTimelinePayload {
    pub id: String,
    pub timeline_v2: String,
    pub manual_edit: bool,
}

#[derive(Debug)]
pub struct ArtifactSpeakerDiarizationPayload {
    pub artifact_id: String,
    pub allow_overwrite_manual_edits: bool,
}

#[derive(Debug)]
pub struct ArtifactSpeakerDiarizationResponse {
    pub artifact_id: String,
    pub state: String,
}

#[derive(Debug)]
pub struct ArtifactSpeakerDiarizationProgressEvent {
    pub artifact_id: String,
    pub state: String,
    pub message: String,
    pub percentage: u8,
}

#[derive(Debug)]
pub struct ChatArtifactPayload {
    pub id: String,
    pub prompt: String,
    pub origin: String,
    pub context: ArtifactAiContextOptions,
}

#[derive(Debug)]
pub struct SummarizeArtifactPayload {
    pub id: String,
    pub language: String,
    pub context: ArtifactAiContextOptions,
    pub sections: bool,
    pub bullet_points: bool,
    pub action_items: bool,
    pub key_points_only: bool,
    pub custom_prompt: Option<String>,
}

#[derive(Debug)]
pub struct OptimizeArtifactPayload {
    pub id: String,
    pub text: String,
}

#[derive(Debug)]
pub struct EmotionAnalysisPayload {
    pub id: String,
    pub language: String,
    pub context: ArtifactAiContextOptions,
    pub speaker_dynamics: bool,
}

/// A document that is made of a transcript.
#[derive(Clone, Copy, PartialEq, Eq, Structural, Debug)]
pub enum GeneratedArtifactPackKind {
    StudyPack,
    MeetingIntelligence,
}

#[derive(Debug)]
pub struct GeneratedArtifactPack {
    pub kind: GeneratedArtifactPackKind,
    pub generated_at: String,
    pub body_markdown: String,
}

#[derive(Debug)]
pub struct GenerateArtifactPackPayload {
    pub id: String,
    pub kind: GeneratedArtifactPackKind,
    pub language: String,
    pub context: ArtifactAiContextOptions,
}

#[derive(Debug)]
pub struct RenameArtifactPayload {
    pub id: String,
    pub new_title: String,
}

#[derive(Debug)]
pub struct DeleteArtifactsPayload {
    pub ids: Vec<String>,
}

/// The format of an exported file.
#[derive(Clone, Copy, PartialEq, Eq, Structural, Debug)]
pub enum ExportFormat {
    Txt,
    Docx,
    Html,
    Pdf,
    Json,
    Srt,
    Vtt,
    Csv,
    Md,
}

/// What an export shows of a transcript.
#[derive(Clone, Copy, PartialEq, Eq, Structural, Debug)]
pub enum ExportStyle {
    Transcript,
    Subtitles,
    Segments,
}

#[derive(Clone, Copy, PartialEq, Eq, Structural, Debug)]
pub enum ExportGrouping {
    Ungrouped,
    SpeakerParagraphs,
}

#[derive(Clone, Copy, PartialEq, Eq, Structural, Debug)]
pub struct ExportOptions {
    pub include_timestamps: bool,
    pub grouping: Option<ExportGrouping>,
    pub include_speaker_names: bool,
}

/// An export shows neither timestamps nor speakers unless asked to.
pub open spec fn plain_export() -> ExportOptions {
    ExportOptions {
        include_timestamps: false,
        grouping: Some(ExportGrouping::Ungrouped),
        include_speaker_names: false,
    }
}

impl Default for ExportOptions {
    fn default() -> (r: ExportOptions)
        ensures
            r == plain_export(),
            !r.include_timestamps,
            !r.include_speaker_names,
            r.grouping == Some(ExportGrouping::Ungrouped),
    {
        ExportOptions {
            include_timestamps: false,
            grouping: Some(ExportGrouping::Ungrouped),
            include_speaker_names: false,
        }
    }
}

/// Whether a preview is what the file will hold, or a rendering of it.
#[derive(Clone, Copy, PartialEq, Eq, Structural, Debug)]
pub enum ExportPreviewMode {
    Exact,
    Document,
}

#[derive(Debug)]
pub struct ExportPreviewResponse {
    pub content: String,
    pub mode: ExportPreviewMode,
}

#[derive(Debug)]
pub struct ReadAudioFilePayload {
    pub path: String,
}

#[derive(Debug)]
pub struct ReadArtifactAudioPayload {
    pub artifact_id: String,
}

#[derive(Debug)]
pub struct DeleteArtifactsResponse {
    pub deleted: usize,
}

#[derive(Debug)]
pub struct RestoreArtifactsResponse {
    pub restored: usize,
}

#[derive(Debug)]
pub struct ExportArtifactResponse {
    pub path: String,
}

} // verus!
