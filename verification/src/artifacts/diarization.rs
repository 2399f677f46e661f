//! Telling the speakers of a transcript apart, again.

use vstd::prelude::*;
use vstd::string::*;

use crate::artifacts::payloads::{
    ArtifactSpeakerDiarizationPayload, ArtifactSpeakerDiarizationProgressEvent,
    ArtifactSpeakerDiarizationResponse, UpdateArtifactTimelinePayload,
};
use crate::error::{
    command_error, ApplicationError, ApplicationErrorView, CommandError, CommandErrorView,
};
use crate::text::{
    ascii_lower, ascii_lower_char, chars_of, decimal, inked, is_ascii_alnum, is_ascii_alphanumeric,
    lemma_inked_edge, lower_char, opt_view, prefix, push_char, push_decimal, same_text, trim,
    trim_text, trimming_takes_white_only,
};
use crate::text_map::TextMap;

verus! {

/// The metadata entry that says that the timeline was edited by hand.
pub const TIMELINE_MANUAL_EDITS_METADATA_KEY: &'static str = "timeline_manual_edits_v1";

/// An error of the command.
pub open spec fn diarization_error(message: Seq<char>) -> CommandErrorView {
    command_error("speaker_diarization"@, message)
}

// ---------------------------------------------------------------------------
// Edits by hand
// ---------------------------------------------------------------------------

/// Whether a timeline was edited by hand.
pub fn has_timeline_manual_edits(metadata: &TextMap) -> (r: bool)
    ensures
        r == metadata@.contains_key(TIMELINE_MANUAL_EDITS_METADATA_KEY@),
{
    metadata.contains(TIMELINE_MANUAL_EDITS_METADATA_KEY)
}

/// What is recorded of the edits of a timeline.
#[derive(Debug)]
pub struct TimelineManualEditMetadata {
    pub version: String,
    pub manual_edit_count: usize,
    pub last_edited_at: String,
}

/// The edits that a record counts; one of another version counts none.
pub open spec fn recorded_edits(previous: Option<TimelineManualEditMetadata>) -> nat {
    match previous {
        Some(m) if m.version@ == TIMELINE_MANUAL_EDITS_METADATA_KEY@ => m.manual_edit_count as nat,
        _ => 0,
    }
}

/// Records one more edit of a timeline. `previous` is the record so far, where it can be read.
pub fn next_timeline_manual_edit_metadata(
    previous: &Option<TimelineManualEditMetadata>,
    edited_at: &str,
) -> (r: TimelineManualEditMetadata)
    ensures
        r.version@ == TIMELINE_MANUAL_EDITS_METADATA_KEY@,
        r.last_edited_at@ == edited_at@,
        previous is None ==> r.manual_edit_count == 1,
        previous matches Some(m) ==> (m.version@ != TIMELINE_MANUAL_EDITS_METADATA_KEY@
            ==> r.manual_edit_count == 1),
        previous matches Some(m) ==> (m.version@ == TIMELINE_MANUAL_EDITS_METADATA_KEY@
            && m.manual_edit_count < usize::MAX ==> r.manual_edit_count == m.manual_edit_count + 1),
        r.manual_edit_count == if recorded_edits(*previous) < usize::MAX {
            (recorded_edits(*previous) + 1) as usize
        } else {
            usize::MAX
        },
{
    let count: usize = match previous {
        Some(m) => if same_text(m.version.as_str(), TIMELINE_MANUAL_EDITS_METADATA_KEY) {
            m.manual_edit_count
        } else {
            0
        },
        None => 0,
    };
    let next: usize = if count < usize::MAX {
        count + 1
    } else {
        count
    };
    TimelineManualEditMetadata {
        version: TIMELINE_MANUAL_EDITS_METADATA_KEY.to_owned(),
        manual_edit_count: next,
        last_edited_at: edited_at.to_owned(),
    }
}

/// What an update of a timeline records of edits by hand: nothing, unless it is one.
pub fn update_artifact_timeline(
    payload: &UpdateArtifactTimelinePayload,
    previous: &Option<TimelineManualEditMetadata>,
    edited_at: &str,
) -> (r: Option<TimelineManualEditMetadata>)
    ensures
        r is Some <==> payload.manual_edit,
        r matches Some(m) ==> {
            &&& m.version@ == TIMELINE_MANUAL_EDITS_METADATA_KEY@
            &&& m.last_edited_at@ == edited_at@
            &&& m.manual_edit_count == if recorded_edits(*previous) < usize::MAX {
                (recorded_edits(*previous) + 1) as usize
            } else {
                usize::MAX
            }
        },
{
    if payload.manual_edit {
        Some(next_timeline_manual_edit_metadata(previous, edited_at))
    } else {
        None
    }
}

// ---------------------------------------------------------------------------
// The runs in progress
// ---------------------------------------------------------------------------

/// The runs in progress: for each artifact the run that works on it.
pub struct DiarizationTasks {
    pub runs: TextMap,
}

impl View for DiarizationTasks {
    type V = Map<Seq<char>, Seq<char>>;

    open spec fn view(&self) -> Map<Seq<char>, Seq<char>> {
        self.runs@
    }
}

/// Why a run is refused, if it is.
pub open spec fn start_problem(
    payload: ArtifactSpeakerDiarizationPayload,
    has_manual_edits: bool,
) -> Option<CommandErrorView> {
    if trim(payload.artifact_id@).len() == 0 {
        Some(diarization_error("artifact id cannot be empty"@))
    } else if !payload.allow_overwrite_manual_edits && has_manual_edits {
        Some(
            diarization_error(
                "speaker diarization rerun is blocked because the timeline contains manual edits; explicitly allow overwriting manual edits to continue"@,
            ),
        )
    } else {
        None
    }
}

/// Whether a run has to be started.
pub struct DiarizationStart {
    pub response: ArtifactSpeakerDiarizationResponse,
    /// False when another run works on the artifact already.
    pub is_new: bool,
}

/// Registers a run, unless one works on the artifact already. Edits by hand are in the way unless
/// they may be overwritten.
pub fn run_artifact_speaker_diarization(
    tasks: &mut DiarizationTasks,
    payload: &ArtifactSpeakerDiarizationPayload,
    has_manual_edits: bool,
    run_id: &str,
) -> (r: Result<DiarizationStart, CommandError>)
    ensures
        match start_problem(*payload, has_manual_edits) {
            Some(e) => r is Err && r->Err_0@ == e && final(tasks)@ == old(tasks)@,
            None => {
                let id = trim(payload.artifact_id@);
                &&& r is Ok
                &&& r->Ok_0.response.artifact_id@ == id
                &&& r->Ok_0.response.state@ == "running"@
                &&& r->Ok_0.is_new == !old(tasks)@.contains_key(id)
                &&& final(tasks)@ == if old(tasks)@.contains_key(id) {
                    old(tasks)@
                } else {
                    old(tasks)@.insert(id, run_id@)
                }
            },
        },
{
    let artifact_id: String = trim_text(payload.artifact_id.as_str());
    if artifact_id.as_str().is_empty() {
        return Err(CommandError::new("speaker_diarization", "artifact id cannot be empty"));
    }
    if !payload.allow_overwrite_manual_edits && has_manual_edits {
        return Err(
            CommandError::new(
                "speaker_diarization",
                "speaker diarization rerun is blocked because the timeline contains manual edits; explicitly allow overwriting manual edits to continue",
            ),
        );
    }
    let is_new: bool = !tasks.runs.contains(artifact_id.as_str());
    if is_new {
        tasks.runs.insert(artifact_id.as_str(), run_id);
    }
    Ok(
        DiarizationStart {
            response: ArtifactSpeakerDiarizationResponse {
                artifact_id,
                state: "running".to_owned(),
            },
            is_new,
        },
    )
}

/// A run that was cancelled.
pub struct DiarizationCancel {
    pub response: ArtifactSpeakerDiarizationResponse,
    /// What is recorded and reported, whether a run was in progress or not.
    pub record: DiarizationRecord,
    /// The run to stop, if one was in progress.
    pub run_id: Option<String>,
}

/// Cancels the run that works on an artifact, if one does.
pub fn cancel_artifact_speaker_diarization(
    tasks: &mut DiarizationTasks,
    payload: &ArtifactSpeakerDiarizationPayload,
) -> (r: Result<DiarizationCancel, CommandError>)
    ensures
        r is Ok <==> trim(payload.artifact_id@).len() > 0,
        r is Err ==> r->Err_0@ == diarization_error("artifact id cannot be empty"@),
        r is Err ==> final(tasks)@ == old(tasks)@,
        r matches Ok(c) ==> {
            let id = trim(payload.artifact_id@);
            &&& c.response.artifact_id@ == id
            &&& c.response.state@ == "cancelled"@
            &&& records_cancellation(c.record, id)
            &&& opt_view(c.run_id) == if old(tasks)@.contains_key(id) {
                Some(old(tasks)@[id])
            } else {
                None
            }
            &&& final(tasks)@ == old(tasks)@.remove(id)
        },
{
    let artifact_id: String = trim_text(payload.artifact_id.as_str());
    if artifact_id.as_str().is_empty() {
        return Err(CommandError::new("speaker_diarization", "artifact id cannot be empty"));
    }
    let run_id: Option<String> = match tasks.runs.get(artifact_id.as_str()) {
        Some(run) => Some(run.to_owned()),
        None => None,
    };
    tasks.runs.remove(artifact_id.as_str());
    let record: DiarizationRecord = cancelled_diarization_record(artifact_id.as_str());
    Ok(
        DiarizationCancel {
            response: ArtifactSpeakerDiarizationResponse {
                artifact_id,
                state: "cancelled".to_owned(),
            },
            record,
            run_id,
        },
    )
}

/// The runs after one has ended: it is taken out only while it is the one that works on its
/// artifact.
pub open spec fn without_run(
    runs: Map<Seq<char>, Seq<char>>,
    artifact_id: Seq<char>,
    run_id: Seq<char>,
) -> Map<Seq<char>, Seq<char>> {
    if runs.contains_key(artifact_id) && runs[artifact_id] == run_id {
        runs.remove(artifact_id)
    } else {
        runs
    }
}

/// Takes a run that has ended out of those in progress.
pub fn release_diarization_run(tasks: &mut DiarizationTasks, artifact_id: &str, run_id: &str)
    ensures
        final(tasks)@ == without_run(old(tasks)@, artifact_id@, run_id@),
{
    let own: bool = match tasks.runs.get(artifact_id) {
        Some(run) => same_text(run, run_id),
        None => false,
    };
    if own {
        tasks.runs.remove(artifact_id);
    }
}

/// A run that ends after it was cancelled does not take out the run that was started since.
pub proof fn a_late_end_leaves_the_new_run(
    runs: Map<Seq<char>, Seq<char>>,
    artifact_id: Seq<char>,
    old_run: Seq<char>,
    new_run: Seq<char>,
)
    requires
        old_run != new_run,
    ensures
        ({
            let after = without_run(
                runs.remove(artifact_id).insert(artifact_id, new_run),
                artifact_id,
                old_run,
            );
            after.contains_key(artifact_id) && after[artifact_id] == new_run
        }),
{
}

// ---------------------------------------------------------------------------
// What is reported
// ---------------------------------------------------------------------------

/// A change of an artifact's metadata; without a value the entry is removed.
#[derive(Debug)]
pub struct MetadataChange {
    pub key: String,
    pub value: Option<String>,
}

/// The content of a [`MetadataChange`].
pub struct ChangeView {
    pub key: Seq<char>,
    pub value: Option<Seq<char>>,
}

impl View for MetadataChange {
    type V = ChangeView;

    open spec fn view(&self) -> ChangeView {
        ChangeView { key: self.key@, value: opt_view(self.value) }
    }
}

/// The contents of a list of changes.
pub open spec fn change_views(v: Seq<MetadataChange>) -> Seq<ChangeView> {
    v.map_values(|c: MetadataChange| c@)
}

/// The changes that record how a run stands.
pub open spec fn status_changes(status: Seq<char>, error: Option<Seq<char>>, progress: nat) -> Seq<
    ChangeView,
> {
    seq![
        ChangeView { key: "speaker_diarization_status"@, value: Some(status) },
        ChangeView { key: "speaker_diarization_error"@, value: error },
        ChangeView { key: "speaker_diarization_progress"@, value: Some(decimal(progress)) },
    ]
}

/// Lists the changes that record how a run stands.
pub fn set_diarization_metadata(status: &str, error: Option<&str>, progress: u8) -> (r: Vec<
    MetadataChange,
>)
    ensures
        change_views(r@) == status_changes(
            status@,
            (match error {
                Some(e) => Some(e@),
                None => None,
            }),
            progress as nat,
        ),
{
    let mut text: String = String::new();
    push_decimal(&mut text, progress as u64);
    assert(text@ =~= decimal(progress as nat));
    let mut out: Vec<MetadataChange> = Vec::new();
    out.push(
        MetadataChange {
            key: "speaker_diarization_status".to_owned(),
            value: Some(status.to_owned()),
        },
    );
    out.push(
        MetadataChange {
            key: "speaker_diarization_error".to_owned(),
            value: match error {
                Some(e) => Some(e.to_owned()),
                None => None,
            },
        },
    );
    out.push(
        MetadataChange {
            key: "speaker_diarization_progress".to_owned(),
            value: Some(text),
        },
    );
    assert(change_views(out@) =~= status_changes(
        status@,
        (match error {
            Some(e) => Some(e@),
            None => None,
        }),
        progress as nat,
    ));
    out
}

/// A report of progress.
pub struct ProgressReport {
    pub state: Seq<char>,
    pub message: Seq<char>,
    pub percentage: nat,
}

/// Whether an event reports progress on an artifact.
pub open spec fn reports(
    event: ArtifactSpeakerDiarizationProgressEvent,
    artifact_id: Seq<char>,
    report: ProgressReport,
) -> bool {
    &&& event.artifact_id@ == artifact_id
    &&& event.state@ == report.state
    &&& event.message@ == report.message
    &&& event.percentage == report.percentage
}

/// Makes a report of progress.
pub fn emit_diarization_progress(artifact_id: &str, state: &str, message: &str, percentage: u8) -> (r:
    ArtifactSpeakerDiarizationProgressEvent)
    ensures
        reports(
            r,
            artifact_id@,
            ProgressReport { state: state@, message: message@, percentage: percentage as nat },
        ),
{
    ArtifactSpeakerDiarizationProgressEvent {
        artifact_id: artifact_id.to_owned(),
        state: state.to_owned(),
        message: message.to_owned(),
        percentage,
    }
}

/// How the state of a run is recorded and reported.
pub struct DiarizationRecord {
    pub changes: Vec<MetadataChange>,
    pub event: ArtifactSpeakerDiarizationProgressEvent,
}

/// Records and reports that a run was started.
pub fn begin_diarization_run(artifact_id: &str) -> (r: DiarizationRecord)
    ensures
        reports(
            r.event,
            artifact_id@,
            ProgressReport {
                state: "running"@,
                message: "Preparing speaker diarization"@,
                percentage: 0,
            },
        ),
        change_views(r.changes@) == status_changes("running"@, None, 0),
{
    DiarizationRecord {
        changes: set_diarization_metadata("running", None, 0),
        event: emit_diarization_progress(
            artifact_id,
            "running",
            "Preparing speaker diarization",
            0,
        ),
    }
}

/// The report of a cancelled run.
pub open spec fn cancelled_report() -> ProgressReport {
    ProgressReport {
        state: "cancelled"@,
        message: "Speaker diarization cancelled"@,
        percentage: 100,
    }
}

/// Whether a record says that the run on an artifact was cancelled: without an error, and at its end.
pub open spec fn records_cancellation(record: DiarizationRecord, artifact_id: Seq<char>) -> bool {
    &&& reports(record.event, artifact_id, cancelled_report())
    &&& change_views(record.changes@) == status_changes("cancelled"@, None, 100)
}

/// Records and reports that a run was cancelled.
pub fn cancelled_diarization_record(artifact_id: &str) -> (r: DiarizationRecord)
    ensures
        records_cancellation(r, artifact_id@),
{
    DiarizationRecord {
        changes: set_diarization_metadata("cancelled", None, 100),
        event: emit_diarization_progress(
            artifact_id,
            "cancelled",
            "Speaker diarization cancelled",
            100,
        ),
    }
}

/// Records and reports the end of a run: an error after a cancellation counts as cancelled, any
/// other one as failed.
pub fn run_artifact_speaker_diarization_task(
    artifact_id: &str,
    result: &Result<(), CommandError>,
    cancelled: bool,
) -> (r: DiarizationRecord)
    ensures
        ({
            let report = end_report(*result, cancelled);
            &&& reports(r.event, artifact_id@, report)
            &&& change_views(r.changes@) == status_changes(
                report.state,
                (if report.state == "failed"@ {
                    Some(report.message)
                } else {
                    None
                }),
                100,
            )
        }),
{
    proof {
        reveal_strlit("failed");
        reveal_strlit("cancelled");
        reveal_strlit("completed");
        assert("failed"@.len() != "cancelled"@.len());
        assert("failed"@.len() != "completed"@.len());
    }
    match result {
        Ok(()) => DiarizationRecord {
            changes: set_diarization_metadata("completed", None, 100),
            event: emit_diarization_progress(
                artifact_id,
                "completed",
                "Speaker diarization completed",
                100,
            ),
        },
        Err(error) => {
            if cancelled {
                cancelled_diarization_record(artifact_id)
            } else {
                DiarizationRecord {
                    changes: set_diarization_metadata("failed", Some(error.message.as_str()), 100),
                    event: emit_diarization_progress(
                        artifact_id,
                        "failed",
                        error.message.as_str(),
                        100,
                    ),
                }
            }
        },
    }
}

/// The last report of a run.
pub open spec fn end_report(result: Result<(), CommandError>, cancelled: bool) -> ProgressReport {
    match result {
        Ok(()) => ProgressReport {
            state: "completed"@,
            message: "Speaker diarization completed"@,
            percentage: 100,
        },
        Err(e) => if cancelled {
            cancelled_report()
        } else {
            ProgressReport { state: "failed"@, message: e.message@, percentage: 100 }
        },
    }
}

// ---------------------------------------------------------------------------
// What a run works on
// ---------------------------------------------------------------------------

/// A segment of a timeline, as far as its speaker is concerned. Its times are found by its place.
#[derive(Debug)]
pub struct SpeakerSegment {
    pub place: usize,
    pub text: String,
    pub speaker_id: Option<String>,
    pub speaker_label: Option<String>,
    pub language_code: Option<String>,
}

/// Whether a segment is another one without its speaker.
pub open spec fn is_unassigned(segment: SpeakerSegment, source: SpeakerSegment) -> bool {
    &&& segment.place == source.place
    &&& segment.text@ == source.text@
    &&& opt_view(segment.language_code) == opt_view(source.language_code)
    &&& segment.speaker_id is None
    &&& segment.speaker_label is None
}

/// Gives the segments that speakers are assigned to: those of the timeline, without their speakers.
pub fn timeline_segments_for_diarization(timeline: &Option<Vec<SpeakerSegment>>) -> (r: Result<
    Vec<SpeakerSegment>,
    CommandError,
>)
    ensures
        r is Ok <==> timeline is Some,
        r is Err ==> r->Err_0@ == diarization_error(
            "timeline_v2 metadata is missing or invalid"@,
        ),
        r matches Ok(list) ==> {
            &&& list@.len() == timeline->0@.len()
            &&& forall|i: int|
                0 <= i < list@.len() ==> is_unassigned(#[trigger] list@[i], timeline->0@[i])
            &&& forall|i: int|
                0 <= i < list@.len() ==> (#[trigger] list@[i]).text@ == timeline->0@[i].text@
                    && list@[i].place == timeline->0@[i].place && list@[i].speaker_id is None
                    && list@[i].speaker_label is None
        },
{
    let source: &Vec<SpeakerSegment> = match timeline {
        Some(t) => t,
        None => {
            return Err(
                CommandError::new(
                    "speaker_diarization",
                    "timeline_v2 metadata is missing or invalid",
                ),
            );
        },
    };
    let mut out: Vec<SpeakerSegment> = Vec::new();
    let mut i: usize = 0;
    while i < source.len()
        invariant
            i <= source@.len(),
            out@.len() == i,
            forall|k: int| 0 <= k < i ==> is_unassigned(#[trigger] out@[k], source@[k]),
        decreases source@.len() - i,
    {
        out.push(
            SpeakerSegment {
                place: source[i].place,
                text: source[i].text.clone(),
                speaker_id: None,
                speaker_label: None,
                language_code: source[i].language_code.clone(),
            },
        );
        i = i + 1;
    }
    Ok(out)
}

/// What was found of an artifact that a run is to work on.
pub struct DiarizationInput {
    pub found: bool,
    pub timeline: Option<Vec<SpeakerSegment>>,
    pub has_audio: bool,
    pub cancelled: bool,
}

/// Why a run cannot begin its work.
pub enum DiarizationRefusal {
    Command(CommandError),
    Cancelled,
}

/// The content of a [`DiarizationRefusal`].
pub enum RefusalView {
    Command(CommandErrorView),
    Cancelled,
}

impl View for DiarizationRefusal {
    type V = RefusalView;

    open spec fn view(&self) -> RefusalView {
        match self {
            DiarizationRefusal::Command(e) => RefusalView::Command(e@),
            DiarizationRefusal::Cancelled => RefusalView::Cancelled,
        }
    }
}

/// Why a run cannot begin its work, if it cannot.
pub open spec fn input_problem(input: DiarizationInput) -> Option<RefusalView> {
    if !input.found {
        Some(RefusalView::Command(diarization_error("transcript not found"@)))
    } else if input.timeline is None {
        Some(
            RefusalView::Command(diarization_error("timeline_v2 metadata is missing or invalid"@)),
        )
    } else if input.timeline->0@.len() == 0 {
        Some(
            RefusalView::Command(
                diarization_error("timeline segments are not available for this transcript"@),
            ),
        )
    } else if !input.has_audio {
        Some(
            RefusalView::Command(
                diarization_error("artifact audio is not available for speaker diarization"@),
            ),
        )
    } else if input.cancelled {
        Some(RefusalView::Cancelled)
    } else {
        None
    }
}

/// Checks what a run is to work on, and gives the segments that it assigns speakers to.
pub fn run_artifact_speaker_diarization_inner(input: &DiarizationInput) -> (r: Result<
    Vec<SpeakerSegment>,
    DiarizationRefusal,
>)
    ensures
        match input_problem(*input) {
            Some(p) => r is Err && r->Err_0@ == p,
            None => {
                &&& r is Ok
                &&& r->Ok_0@.len() == input.timeline->0@.len()
                &&& forall|i: int|
                    0 <= i < r->Ok_0@.len() ==> is_unassigned(
                        #[trigger] r->Ok_0@[i],
                        input.timeline->0@[i],
                    )
            },
        },
{
    if !input.found {
        return Err(
            DiarizationRefusal::Command(
                CommandError::new("speaker_diarization", "transcript not found"),
            ),
        );
    }
    let segments: Vec<SpeakerSegment> = match timeline_segments_for_diarization(&input.timeline) {
        Ok(list) => list,
        Err(error) => {
            return Err(DiarizationRefusal::Command(error));
        },
    };
    if segments.len() == 0 {
        return Err(
            DiarizationRefusal::Command(
                CommandError::new(
                    "speaker_diarization",
                    "timeline segments are not available for this transcript",
                ),
            ),
        );
    }
    if !input.has_audio {
        return Err(
            DiarizationRefusal::Command(
                CommandError::new(
                    "speaker_diarization",
                    "artifact audio is not available for speaker diarization",
                ),
            ),
        );
    }
    if input.cancelled {
        return Err(DiarizationRefusal::Cancelled);
    }
    Ok(segments)
}

/// The letters and digits of a text.
pub open spec fn alnum_only(s: Seq<char>) -> Seq<char>
    decreases s.len(),
{
    if s.len() == 0 {
        Seq::empty()
    } else if is_ascii_alnum(s.last()) {
        alnum_only(s.drop_last()).push(s.last())
    } else {
        alnum_only(s.drop_last())
    }
}

/// The most characters of a file's extension.
pub const MAX_EXTENSION_CHARS: usize = 12;

/// An extension that is safe in a file's name.
pub open spec fn clean_extension(extension: Seq<char>) -> Seq<char> {
    ascii_lower(prefix(alnum_only(extension), MAX_EXTENSION_CHARS as nat))
}

proof fn lemma_alnum_grows(s: Seq<char>, n: int)
    requires
        0 <= n <= s.len(),
    ensures
        alnum_only(s.take(n)).len() <= alnum_only(s).len(),
        alnum_only(s).take(alnum_only(s.take(n)).len() as int) == alnum_only(s.take(n)),
    decreases s.len() - n,
{
    if n < s.len() {
        lemma_alnum_grows(s, n + 1);
        assert(s.take(n + 1).drop_last() =~= s.take(n));
        let a = alnum_only(s.take(n));
        let b = alnum_only(s.take(n + 1));
        assert(b.take(a.len() as int) =~= a);
        assert(alnum_only(s).take(a.len() as int) =~= alnum_only(s).take(b.len() as int).take(
            a.len() as int,
        ));
    } else {
        assert(s.take(n) =~= s);
        assert(alnum_only(s).take(alnum_only(s).len() as int) =~= alnum_only(s));
    }
}

/// Makes an extension safe in a file's name: its letters and digits, in lower case, and not too
/// many.
pub fn sanitize_audio_extension(extension: &str) -> (r: String)
    ensures
        r@ == clean_extension(extension@),
{
    let v: Vec<char> = chars_of(extension);
    let ghost low = |c: char| lower_char(c);
    let mut out: String = String::new();
    let mut kept: usize = 0;
    let mut i: usize = 0;
    while i < v.len() && kept < MAX_EXTENSION_CHARS
        invariant
            i <= v@.len(),
            kept <= MAX_EXTENSION_CHARS,
            low == |c: char| lower_char(c),
            alnum_only(v@.take(i as int)).len() == kept,
            out@ =~= alnum_only(v@.take(i as int)).map_values(low),
        decreases v@.len() - i,
    {
        assert(v@.take(i + 1).drop_last() =~= v@.take(i as int));
        if is_ascii_alphanumeric(v[i]) {
            push_char(&mut out, ascii_lower_char(v[i]));
            kept = kept + 1;
        }
        i = i + 1;
    }
    proof {
        lemma_alnum_grows(v@, i as int);
        if i == v@.len() {
            assert(v@.take(i as int) =~= v@);
        }
        assert(prefix(alnum_only(v@), MAX_EXTENSION_CHARS as nat) =~= alnum_only(v@.take(i as int)));
    }
    out
}

/// The extension of a file of audio: that of its source, else a general one.
pub open spec fn audio_extension(extension: Option<Seq<char>>) -> Seq<char> {
    match extension {
        Some(e) if clean_extension(e).len() > 0 => clean_extension(e),
        _ => "audio"@,
    }
}

/// Names the file that holds the audio of a run. `extension` is that of the artifact's source.
pub fn diarization_temp_source_path(
    artifact_id: &str,
    run_id: &str,
    extension: Option<&str>,
) -> (r: String)
    ensures
        r@ == "sbobino_diarization_source_"@ + artifact_id@ + "_"@ + run_id@ + "."@
            + audio_extension(
            match extension {
                Some(e) => Some(e@),
                None => None,
            },
        ),
{
    let cleaned: String = match extension {
        Some(e) => sanitize_audio_extension(e),
        None => String::new(),
    };
    let mut out: String = "sbobino_diarization_source_".to_owned();
    out.append(artifact_id);
    out.append("_");
    out.append(run_id);
    out.append(".");
    if cleaned.as_str().is_empty() {
        out.append("audio");
    } else {
        out.append(cleaned.as_str());
    }
    out
}

/// Names the file that holds the audio of a run as samples.
pub fn diarization_temp_wav_path(artifact_id: &str, unique: &str) -> (r: String)
    ensures
        r@ == "sbobino_diarization_"@ + artifact_id@ + "_"@ + unique@ + ".wav"@,
{
    let mut out: String = "sbobino_diarization_".to_owned();
    out.append(artifact_id);
    out.append("_");
    out.append(unique);
    out.append(".wav");
    out
}

// ---------------------------------------------------------------------------
// The course of a run
// ---------------------------------------------------------------------------

/// The steps of a run, in order.
#[derive(Clone, Copy, PartialEq, Eq, Structural, Debug)]
pub enum DiarizationStep {
    /// Set up the tools.
    BuildRuntime,
    /// Turn the audio into samples; a cancellation interrupts it.
    Transcode,
    /// Find out who speaks when; a cancellation interrupts it.
    Diarize,
    /// Assign the speakers to the segments.
    Assign,
    /// Look again whether the timeline was edited by hand.
    CheckEdits,
    /// Store the timeline.
    StoreTimeline,
    /// Store how sure the speakers are.
    StoreQuality,
    /// Forget the edits that were overwritten.
    ClearEditGuard,
    /// The work is done.
    Over,
}

/// The step that follows a step that succeeded.
pub open spec fn next_step(step: DiarizationStep, allow_overwrite: bool) -> DiarizationStep {
    match step {
        DiarizationStep::BuildRuntime => DiarizationStep::Transcode,
        DiarizationStep::Transcode => DiarizationStep::Diarize,
        DiarizationStep::Diarize => DiarizationStep::Assign,
        DiarizationStep::Assign => if allow_overwrite {
            DiarizationStep::StoreTimeline
        } else {
            DiarizationStep::CheckEdits
        },
        DiarizationStep::CheckEdits => DiarizationStep::StoreTimeline,
        DiarizationStep::StoreTimeline => DiarizationStep::StoreQuality,
        DiarizationStep::StoreQuality => if allow_overwrite {
            DiarizationStep::ClearEditGuard
        } else {
            DiarizationStep::Over
        },
        DiarizationStep::ClearEditGuard => DiarizationStep::Over,
        DiarizationStep::Over => DiarizationStep::Over,
    }
}

/// Whether a cancellation is looked at after a step: before speakers are assigned, before anything
/// is stored, and when everything is.
pub open spec fn heeds_cancel(step: DiarizationStep, allow_overwrite: bool) -> bool {
    step == DiarizationStep::Diarize || step == DiarizationStep::Assign || (next_step(
        step,
        allow_overwrite,
    ) == DiarizationStep::Over)
}

/// The report after a step that succeeded, if there is one.
pub open spec fn step_report(step: DiarizationStep) -> Option<ProgressReport> {
    match step {
        DiarizationStep::BuildRuntime => Some(
            ProgressReport {
                state: "running"@,
                message: "Preparing audio for speaker diarization"@,
                percentage: 8,
            },
        ),
        DiarizationStep::Transcode => Some(
            ProgressReport {
                state: "running"@,
                message: "Assigning speakers with pyannote"@,
                percentage: 35,
            },
        ),
        DiarizationStep::Diarize => Some(
            ProgressReport {
                state: "running"@,
                message: "Updating speaker timeline"@,
                percentage: 90,
            },
        ),
        _ => None,
    }
}

/// What follows a step.
pub enum DiarizationNext {
    /// Go on with this step, after this report.
    Continue {
        step: DiarizationStep,
        event: Option<ArtifactSpeakerDiarizationProgressEvent>,
    },
    /// Stop, for this reason.
    Stop(ApplicationError),
}

/// Whether what follows a step is right.
pub open spec fn follows(
    next: DiarizationNext,
    artifact_id: Seq<char>,
    step: DiarizationStep,
    allow_overwrite: bool,
    outcome: Result<(), ApplicationError>,
    cancelled: bool,
) -> bool {
    match outcome {
        Err(e) => next matches DiarizationNext::Stop(x) && x@ == e@,
        Ok(()) => if cancelled && heeds_cancel(step, allow_overwrite) {
            next matches DiarizationNext::Stop(x) && x@ == ApplicationErrorView::Cancelled
        } else {
            &&& next matches DiarizationNext::Continue { step: s, event }
            &&& s == next_step(step, allow_overwrite)
            &&& match step_report(step) {
                Some(report) => event is Some && reports(event->0, artifact_id, report),
                None => event is None,
            }
        },
    }
}

/// Takes what came of a step, and says what follows. `cancelled` says whether the run has been
/// cancelled by now.
pub fn run_artifact_speaker_diarization_from_source(
    artifact_id: &str,
    step: DiarizationStep,
    allow_overwrite_manual_edits: bool,
    outcome: Result<(), ApplicationError>,
    cancelled: bool,
) -> (r: DiarizationNext)
    ensures
        follows(r, artifact_id@, step, allow_overwrite_manual_edits, outcome, cancelled),
{
    match outcome {
        Err(error) => {
            return DiarizationNext::Stop(error);
        },
        Ok(()) => {},
    }
    let next: DiarizationStep = match step {
        DiarizationStep::BuildRuntime => DiarizationStep::Transcode,
        DiarizationStep::Transcode => DiarizationStep::Diarize,
        DiarizationStep::Diarize => DiarizationStep::Assign,
        DiarizationStep::Assign => if allow_overwrite_manual_edits {
            DiarizationStep::StoreTimeline
        } else {
            DiarizationStep::CheckEdits
        },
        DiarizationStep::CheckEdits => DiarizationStep::StoreTimeline,
        DiarizationStep::StoreTimeline => DiarizationStep::StoreQuality,
        DiarizationStep::StoreQuality => if allow_overwrite_manual_edits {
            DiarizationStep::ClearEditGuard
        } else {
            DiarizationStep::Over
        },
        DiarizationStep::ClearEditGuard => DiarizationStep::Over,
        DiarizationStep::Over => DiarizationStep::Over,
    };
    let heeds: bool = step == DiarizationStep::Diarize || step == DiarizationStep::Assign || next
        == DiarizationStep::Over;
    if cancelled && heeds {
        return DiarizationNext::Stop(ApplicationError::Cancelled);
    }
    let event: Option<ArtifactSpeakerDiarizationProgressEvent> = match step {
        DiarizationStep::BuildRuntime => Some(
            emit_diarization_progress(
                artifact_id,
                "running",
                "Preparing audio for speaker diarization",
                8,
            ),
        ),
        DiarizationStep::Transcode => Some(
            emit_diarization_progress(
                artifact_id,
                "running",
                "Assigning speakers with pyannote",
                35,
            ),
        ),
        DiarizationStep::Diarize => Some(
            emit_diarization_progress(artifact_id, "running", "Updating speaker timeline", 90),
        ),
        _ => None,
    };
    DiarizationNext::Continue { step: next, event }
}

/// Checks that the tools are there: `None` stands for diarization that is switched off.
pub fn check_diarization_runtime(runtime: &Result<Option<()>, String>) -> (r: Result<
    (),
    CommandError,
>)
    ensures
        match runtime {
            Ok(Some(_)) => r is Ok,
            Ok(None) => r is Err && r->Err_0@ == diarization_error(
                "Speaker diarization is disabled in transcription settings."@,
            ),
            Err(e) => r is Err && r->Err_0@ == diarization_error(e@),
        },
{
    match runtime {
        Ok(Some(_)) => Ok(()),
        Ok(None) => Err(
            CommandError::new(
                "speaker_diarization",
                "Speaker diarization is disabled in transcription settings.",
            ),
        ),
        Err(e) => Err(CommandError::new("speaker_diarization", e.as_str())),
    }
}

/// Checks that the timeline was not edited by hand since the run began.
pub fn check_edits_before_storing(has_manual_edits: bool) -> (r: Result<(), ApplicationError>)
    ensures
        r is Ok <==> !has_manual_edits,
        r is Err ==> r->Err_0@ == ApplicationErrorView::Validation(
            "speaker diarization rerun is blocked because the timeline contains manual edits"@,
        ),
{
    if has_manual_edits {
        return Err(
            ApplicationError::Validation(
                "speaker diarization rerun is blocked because the timeline contains manual edits".to_owned(),
            ),
        );
    }
    Ok(())
}

/// Edits by hand are not overwritten unasked: without leave a timeline is stored only after a look
/// at the edits that found none.
pub proof fn edits_are_guarded(step: DiarizationStep)
    requires
        next_step(step, false) == DiarizationStep::StoreTimeline,
    ensures
        step == DiarizationStep::CheckEdits,
{
}

/// With leave, a run that stores a timeline goes on to forget the edits, so that they do not block
/// a later run.
pub proof fn overwritten_edits_are_forgotten(step: DiarizationStep)
    requires
        step == DiarizationStep::StoreTimeline || step == DiarizationStep::StoreQuality,
    ensures
        next_step(step, true) != DiarizationStep::Over,
        next_step(DiarizationStep::StoreQuality, true) == DiarizationStep::ClearEditGuard,
{
}

/// The number of steps that are left.
pub open spec fn steps_left(step: DiarizationStep) -> nat {
    match step {
        DiarizationStep::BuildRuntime => 8,
        DiarizationStep::Transcode => 7,
        DiarizationStep::Diarize => 6,
        DiarizationStep::Assign => 5,
        DiarizationStep::CheckEdits => 4,
        DiarizationStep::StoreTimeline => 3,
        DiarizationStep::StoreQuality => 2,
        DiarizationStep::ClearEditGuard => 1,
        DiarizationStep::Over => 0,
    }
}

/// A run ends: every step but the last one leads to one with fewer left; and its reports only ever
/// go up.
pub proof fn a_run_ends_and_its_progress_goes_up(step: DiarizationStep, allow_overwrite: bool)
    ensures
        step != DiarizationStep::Over ==> steps_left(next_step(step, allow_overwrite)) < steps_left(
            step,
        ),
        step_report(step) is Some && step_report(next_step(step, allow_overwrite)) is Some
            ==> step_report(step)->0.percentage < step_report(
            next_step(step, allow_overwrite),
        )->0.percentage,
{
}

/// A run is refused only for want of an id, or because of edits by hand that may not be overwritten.
pub proof fn a_run_needs_an_id_and_leave(
    payload: ArtifactSpeakerDiarizationPayload,
    has_manual_edits: bool,
)
    ensures
        start_problem(payload, has_manual_edits) is None <==> inked(payload.artifact_id@).len() > 0 && (
        !has_manual_edits || payload.allow_overwrite_manual_edits),
{
    trimming_takes_white_only(payload.artifact_id@);
    lemma_inked_edge(trim(payload.artifact_id@));
}

/// A run begins its work exactly when the transcript, its segments and its audio are there and it was not
/// cancelled.
pub proof fn a_run_needs_segments_and_audio(input: DiarizationInput)
    ensures
        input_problem(input) is None <==> input.found && input.timeline is Some
            && input.timeline->0@.len() > 0 && input.has_audio && !input.cancelled,
        input_problem(input) == Some(RefusalView::Cancelled) ==> input.cancelled && input.has_audio,
{
}

/// Taking a run out leaves the runs on all other artifacts, and takes out that run only.
pub proof fn other_runs_stay(
    runs: Map<Seq<char>, Seq<char>>,
    artifact_id: Seq<char>,
    run_id: Seq<char>,
    other: Seq<char>,
)
    requires
        other != artifact_id,
    ensures
        ({
            let after = without_run(runs, artifact_id, run_id);
            &&& after.contains_key(other) <==> runs.contains_key(other)
            &&& runs.contains_key(other) ==> after[other] == runs[other]
            &&& runs.contains_key(artifact_id) && runs[artifact_id] == run_id
                ==> !after.contains_key(artifact_id)
            &&& runs.contains_key(artifact_id) && runs[artifact_id] != run_id ==> after.contains_key(
                artifact_id,
            )
        }),
{
}

/// Metadata after changes: an entry with a value is set, one without is removed.
pub open spec fn changed_metadata(
    metadata: Map<Seq<char>, Seq<char>>,
    changes: Seq<ChangeView>,
) -> Map<Seq<char>, Seq<char>>
    decreases changes.len(),
{
    if changes.len() == 0 {
        metadata
    } else {
        let before = changed_metadata(metadata, changes.drop_last());
        match changes.last().value {
            Some(value) => before.insert(changes.last().key, value),
            None => before.remove(changes.last().key),
        }
    }
}

/// The metadata tells how a run stands: its state and its progress, and its error exactly when there is
/// one; nothing else of it changes.
pub proof fn metadata_tells_how_a_run_stands(
    metadata: Map<Seq<char>, Seq<char>>,
    status: Seq<char>,
    error: Option<Seq<char>>,
    progress: nat,
    other: Seq<char>,
)
    requires
        other != "speaker_diarization_status"@,
        other != "speaker_diarization_error"@,
        other != "speaker_diarization_progress"@,
    ensures
        ({
            let m = changed_metadata(metadata, status_changes(status, error, progress));
            &&& m.contains_key("speaker_diarization_status"@)
            &&& m["speaker_diarization_status"@] == status
            &&& m.contains_key("speaker_diarization_progress"@)
            &&& m["speaker_diarization_progress"@] == decimal(progress)
            &&& m.contains_key("speaker_diarization_error"@) <==> error is Some
            &&& error is Some ==> m["speaker_diarization_error"@] == error->0
            &&& m.contains_key(other) <==> metadata.contains_key(other)
            &&& metadata.contains_key(other) ==> m[other] == metadata[other]
        }),
{
    reveal_strlit("speaker_diarization_status");
    reveal_strlit("speaker_diarization_error");
    reveal_strlit("speaker_diarization_progress");
    assert("speaker_diarization_status"@.len() != "speaker_diarization_error"@.len());
    assert("speaker_diarization_status"@.len() != "speaker_diarization_progress"@.len());
    assert("speaker_diarization_error"@.len() != "speaker_diarization_progress"@.len());
    let changes = status_changes(status, error, progress);
    reveal_with_fuel(changed_metadata, 4);
    assert(changes.drop_last() =~= changes.take(2));
    assert(changes.take(2).drop_last() =~= changes.take(1));
    assert(changes.take(1).drop_last() =~= Seq::<ChangeView>::empty());
}

proof fn lemma_alnum_plain(s: Seq<char>, i: int)
    requires
        0 <= i < alnum_only(s).len(),
    ensures
        is_ascii_alnum(alnum_only(s)[i]),
    decreases s.len(),
{
    if i < alnum_only(s.drop_last()).len() {
        lemma_alnum_plain(s.drop_last(), i);
    }
}

proof fn lemma_alnum_same(s: Seq<char>)
    requires
        forall|i: int| 0 <= i < s.len() ==> is_ascii_alnum(#[trigger] s[i]),
    ensures
        alnum_only(s) == s,
    decreases s.len(),
{
    if s.len() > 0 {
        let front = s.drop_last();
        assert forall|i: int| 0 <= i < front.len() implies is_ascii_alnum(#[trigger] front[i]) by {
            assert(front[i] == s[i]);
        }
        lemma_alnum_same(front);
        assert(front.push(s.last()) =~= s);
    } else {
        assert(alnum_only(s) =~= s);
    }
}

/// An extension is at most twelve small letters and digits, so that it cannot lead elsewhere; a short one
/// that is made of them already stays as it is. A file always has one.
pub proof fn an_extension_is_plain_and_short(extension: Seq<char>)
    ensures
        clean_extension(extension).len() <= 12,
        forall|i: int|
            0 <= i < clean_extension(extension).len() ==> {
                let c = #[trigger] clean_extension(extension)[i];
                'a' <= c <= 'z' || '0' <= c <= '9'
            },
        extension.len() <= 12 && (forall|i: int|
            0 <= i < extension.len() ==> ('a' <= #[trigger] extension[i] <= 'z' || '0' <= extension[i]
                <= '9')) ==> clean_extension(extension) == extension,
        audio_extension(Some(extension)).len() > 0,
        audio_extension(None) == "audio"@,
{
    reveal_strlit("audio");
    let kept = prefix(alnum_only(extension), 12);
    assert forall|i: int| 0 <= i < clean_extension(extension).len() implies ({
        let c = #[trigger] clean_extension(extension)[i];
        'a' <= c <= 'z' || '0' <= c <= '9'
    }) by {
        assert(kept[i] == alnum_only(extension)[i]);
        lemma_alnum_plain(extension, i);
        assert(clean_extension(extension)[i] == lower_char(kept[i]));
    }
    if extension.len() <= 12 && (forall|i: int|
        0 <= i < extension.len() ==> ('a' <= #[trigger] extension[i] <= 'z' || '0' <= extension[i]
            <= '9')) {
        lemma_alnum_same(extension);
        assert(kept =~= extension);
        assert(clean_extension(extension) =~= extension);
    }
}

/// A run takes every step: the audio is turned into samples before speakers are looked for, they are
/// assigned before anything is stored, and the timeline is stored before how sure they are. A
/// cancellation is heeded before anything is stored and at the end, and nowhere between.
pub proof fn a_run_takes_every_step(allow_overwrite: bool, step: DiarizationStep)
    ensures
        next_step(DiarizationStep::BuildRuntime, allow_overwrite) == DiarizationStep::Transcode,
        next_step(step, allow_overwrite) == DiarizationStep::Diarize ==> step
            == DiarizationStep::Transcode,
        next_step(step, allow_overwrite) == DiarizationStep::Assign ==> step
            == DiarizationStep::Diarize,
        next_step(step, allow_overwrite) == DiarizationStep::StoreTimeline ==> step
            == DiarizationStep::Assign || step == DiarizationStep::CheckEdits,
        next_step(step, allow_overwrite) == DiarizationStep::StoreQuality ==> step
            == DiarizationStep::StoreTimeline,
        next_step(DiarizationStep::StoreTimeline, allow_overwrite) == DiarizationStep::StoreQuality,
        heeds_cancel(DiarizationStep::Diarize, allow_overwrite),
        heeds_cancel(DiarizationStep::Assign, allow_overwrite),
        !heeds_cancel(DiarizationStep::StoreTimeline, allow_overwrite),
        allow_overwrite ==> !heeds_cancel(DiarizationStep::StoreQuality, allow_overwrite)
            && heeds_cancel(DiarizationStep::ClearEditGuard, allow_overwrite),
        !allow_overwrite ==> heeds_cancel(DiarizationStep::StoreQuality, allow_overwrite),
{
}

/// The last report of a run is at a hundred: completed when the work was done, even if it was cancelled
/// too late, and else cancelled or failed, with the reason.
pub proof fn the_last_report_tells_how_it_ended(result: Result<(), CommandError>, cancelled: bool)
    ensures
        end_report(result, cancelled).percentage == 100,
        result is Ok ==> end_report(result, cancelled).state == "completed"@,
        result is Err && cancelled ==> end_report(result, cancelled).state == "cancelled"@,
        result is Err && !cancelled ==> end_report(result, cancelled).state == "failed"@
            && end_report(result, cancelled).message == result->Err_0.message@,
{
}

/// A step that failed ends the run with its error; a run that was cancelled ends as that where the step
/// heeds it; any other run goes on, and what is told of the step is told of this artifact.
pub proof fn a_run_goes_on_unless_it_must_not(
    next: DiarizationNext,
    artifact_id: Seq<char>,
    step: DiarizationStep,
    allow_overwrite: bool,
    outcome: Result<(), ApplicationError>,
    cancelled: bool,
)
    requires
        follows(next, artifact_id, step, allow_overwrite, outcome, cancelled),
    ensures
        outcome matches Err(e) ==> next is Stop && next->Stop_0@ == e@,
        outcome is Ok && !cancelled ==> next is Continue,
        outcome is Ok && cancelled && (step is Diarize || step is Assign) ==> next is Stop
            && next->Stop_0@ is Cancelled,
        next matches DiarizationNext::Continue { step: s, event } ==> {
            &&& s == next_step(step, allow_overwrite)
            &&& event matches Some(ev) ==> ev.artifact_id@ == artifact_id && ev.state@ == "running"@
        },
{
}

/// A cancelled run is recorded as cancelled and as over, without an error, and told so of its artifact.
pub proof fn a_cancelled_run_is_recorded(record: DiarizationRecord, artifact_id: Seq<char>)
    requires
        records_cancellation(record, artifact_id),
    ensures
        record.event.artifact_id@ == artifact_id,
        record.event.state@ == "cancelled"@,
        record.event.percentage == 100,
        change_views(record.changes@).len() == 3,
        change_views(record.changes@)[0].value == Some("cancelled"@),
        change_views(record.changes@)[1].value is None,
{
}

} // verus!
