//! The download of a batch of models and encoders, one asset after the other.

use vstd::prelude::*;
use vstd::string::*;

use crate::domain::{check_toolchain, toolchain_ready, PyannoteRuntimeHealth, RuntimeHealth};
use crate::error::{command_error, CommandError, CommandErrorView};
use crate::provisioning::catalog::{
    collect_missing_models, coreml_missing_for, lemma_missing_bound, missing_from, parakeet_catalog,
    parakeet_models, required_models, whisper_catalog, whisper_models, ParakeetModelEntry,
    WhisperLine, WhisperModel, MODEL_BASE_URL, PARAKEET_MODEL_BASE_URL,
};
use crate::provisioning::pyannote_plan::{is_pyannote_repair_reason, repair_reason};
use crate::text::{
    cat4, contains, lemma_contains_middle, list_contains, opt_view, same_text, starts_with, trim,
    trim_text, views,
};

verus! {

/// A change of state that the interface is told of.
#[derive(Debug)]
pub struct ProvisioningStatusEvent {
    pub state: String,
    pub message: String,
    pub reason_code: Option<String>,
}

/// The content of a [`ProvisioningStatusEvent`].
pub struct StatusView {
    pub state: Seq<char>,
    pub message: Seq<char>,
    pub reason_code: Option<Seq<char>>,
}

impl View for ProvisioningStatusEvent {
    type V = StatusView;

    open spec fn view(&self) -> StatusView {
        StatusView {
            state: self.state@,
            message: self.message@,
            reason_code: opt_view(self.reason_code),
        }
    }
}

/// Progress that the interface is told of.
#[derive(Debug)]
pub struct ProvisioningProgressEvent {
    pub current: usize,
    pub total: usize,
    pub asset: String,
    pub asset_kind: String,
    pub stage: String,
    pub percentage: u8,
}

/// Options of a provisioning run.
#[derive(Debug)]
pub struct ProvisioningStartPayload {
    pub include_coreml: Option<bool>,
}

/// The model that is asked for.
#[derive(Debug)]
pub struct ProvisioningDownloadModelPayload {
    pub model: String,
    pub include_coreml: Option<bool>,
}

/// Options of a diarization install.
#[derive(Debug)]
pub struct ProvisioningInstallPyannotePayload {
    pub force: Option<bool>,
}

/// Options of a runtime install.
#[derive(Debug)]
pub struct ProvisioningInstallRuntimePayload {
    pub force: Option<bool>,
}

/// Whether a run was started.
#[derive(Debug)]
pub struct ProvisioningStartResponse {
    pub started: bool,
}

/// The status with this content.
pub open spec fn status(
    state: Seq<char>,
    message: Seq<char>,
    reason_code: Option<Seq<char>>,
) -> StatusView {
    StatusView { state, message, reason_code }
}

/// Makes a status event without a reason.
pub fn plain_status(state: &str, message: &str) -> (r: ProvisioningStatusEvent)
    ensures
        r@ == status(state@, message@, None),
{
    ProvisioningStatusEvent {
        state: state.to_owned(),
        message: message.to_owned(),
        reason_code: None,
    }
}

/// Makes a status event with a reason.
pub fn reasoned_status(state: &str, message: &str, reason_code: &str) -> (r:
    ProvisioningStatusEvent)
    ensures
        r@ == status(state@, message@, Some(reason_code@)),
{
    ProvisioningStatusEvent {
        state: state.to_owned(),
        message: message.to_owned(),
        reason_code: Some(reason_code.to_owned()),
    }
}

/// The status of a run that was cancelled.
pub open spec fn cancelled_status() -> StatusView {
    status("cancelled"@, "Provisioning cancelled."@, Some("cancelled"@))
}

/// Makes the status of a run that was cancelled.
pub fn cancelled_event() -> (r: ProvisioningStatusEvent)
    ensures
        r@ == cancelled_status(),
{
    reasoned_status("cancelled", "Provisioning cancelled.", "cancelled")
}

// ---------------------------------------------------------------------------
// The slot
// ---------------------------------------------------------------------------

/// The slot that a provisioning run holds; there is one.
pub struct ProvisioningSlot {
    pub active: bool,
}

/// The error of a run that finds the slot taken.
pub open spec fn slot_busy() -> CommandErrorView {
    command_error(
        "provisioning_busy"@,
        "Another provisioning operation is already running. Wait for it to finish or cancel it before starting a new one."@,
    )
}

/// Takes the slot, if it is free. Two runs never hold it at once: a second call fails until the
/// slot is released.
pub fn acquire_provisioning_slot(slot: &mut ProvisioningSlot) -> (r: Result<(), CommandError>)
    ensures
        r is Ok <==> !old(slot).active,
        r is Err ==> r->Err_0@ == slot_busy(),
        final(slot).active,
{
    if slot.active {
        return Err(
            CommandError::new(
                "provisioning_busy",
                "Another provisioning operation is already running. Wait for it to finish or cancel it before starting a new one.",
            ),
        );
    }
    slot.active = true;
    Ok(())
}

/// Releases the slot.
pub fn release_provisioning_slot(slot: &mut ProvisioningSlot)
    ensures
        !final(slot).active,
{
    slot.active = false;
}

// ---------------------------------------------------------------------------
// Batches
// ---------------------------------------------------------------------------

/// The most assets of a run: the files and the encoders of the larger catalog.
pub const MAX_BATCH_ASSETS: usize = 10;

/// The assets of a run: model files, then encoders as directory and archive.
pub struct ProvisioningDownloadBatch {
    pub missing_models: Vec<String>,
    pub missing_encoders: Vec<(String, String)>,
    pub model_base_url: String,
    pub model_asset_kind: String,
}

impl ProvisioningDownloadBatch {
    /// The number of assets.
    pub open spec fn total(&self) -> nat {
        self.missing_models@.len() + self.missing_encoders@.len()
    }

    /// The batch holds no more than a catalog does.
    pub open spec fn wf(&self) -> bool {
        self.total() <= MAX_BATCH_ASSETS
    }
}

/// An asset to fetch.
pub struct AssetRequest {
    /// Where it comes from.
    pub url: String,
    /// The file it goes to, in the models directory.
    pub file: String,
    /// For an encoder, the directory that is extracted from the file.
    pub encoder_dir: Option<String>,
}

/// The asset at a position of a batch.
pub fn asset_at(batch: &ProvisioningDownloadBatch, index: usize) -> (r: Option<AssetRequest>)
    requires
        batch.wf(),
    ensures
        r is Some <==> index < batch.total(),
        index < batch.missing_models@.len() ==> ({
            let file = batch.missing_models@[index as int]@;
            &&& r->0.url@ == batch.model_base_url@ + file
            &&& r->0.file@ == file
            &&& r->0.encoder_dir is None
        }),
        batch.missing_models@.len() <= index < batch.total() ==> ({
            let encoder = batch.missing_encoders@[index - batch.missing_models@.len()];
            &&& r->0.url@ == MODEL_BASE_URL@ + encoder.1@
            &&& r->0.file@ == encoder.1@
            &&& opt_view(r->0.encoder_dir) == Some(encoder.0@)
        }),
{
    let models: usize = batch.missing_models.len();
    if index < models {
        let mut url: String = batch.model_base_url.clone();
        url.append(batch.missing_models[index].as_str());
        return Some(
            AssetRequest { url, file: batch.missing_models[index].clone(), encoder_dir: None },
        );
    }
    if index - models < batch.missing_encoders.len() {
        let at: usize = index - models;
        let mut url: String = MODEL_BASE_URL.to_owned();
        url.append(batch.missing_encoders[at].1.as_str());
        return Some(
            AssetRequest {
                url,
                file: batch.missing_encoders[at].1.clone(),
                encoder_dir: Some(batch.missing_encoders[at].0.clone()),
            },
        );
    }
    None
}

/// Why an asset was not installed.
pub enum AssetFailure {
    /// The run was cancelled before the asset was fetched.
    Cancelled,
    /// The file could not be fetched. The error `cancelled` stands for a run that was cancelled
    /// while it was fetched.
    DownloadFailed(String),
    /// An encoder's archive could not be removed after its extraction.
    CleanupFailed(String),
    /// An encoder's archive could not be extracted.
    ExtractFailed(String),
    /// The extraction did not end regularly.
    ExtractInterrupted(String),
}

impl AssetFailure {
    /// Only an encoder has an archive.
    pub open spec fn concerns_archive(&self) -> bool {
        self is CleanupFailed || self is ExtractFailed || self is ExtractInterrupted
    }
}

/// How the extraction of an encoder's archive ended.
pub enum ExtractionEnd {
    Extracted,
    Failed(String),
    /// It did not end regularly.
    Interrupted(String),
}

/// What became of an encoder, given how its extraction ended and whether its archive was removed
/// after that. An archive that could not be removed is reported whatever the extraction gave.
pub fn encoder_outcome(extraction: &ExtractionEnd, removed: &Result<(), String>) -> (r: Result<
    (),
    AssetFailure,
>)
    ensures
        r is Ok <==> removed is Ok && extraction is Extracted,
        removed matches Err(e) ==> r->Err_0 matches AssetFailure::CleanupFailed(x) && x@ == e@,
        removed is Ok ==> (extraction matches ExtractionEnd::Failed(e)
            ==> r->Err_0 matches AssetFailure::ExtractFailed(x) && x@ == e@),
        removed is Ok ==> (extraction matches ExtractionEnd::Interrupted(e)
            ==> r->Err_0 matches AssetFailure::ExtractInterrupted(x) && x@ == e@),
{
    match removed {
        Err(error) => Err(AssetFailure::CleanupFailed(error.clone())),
        Ok(_) => match extraction {
            ExtractionEnd::Extracted => Ok(()),
            ExtractionEnd::Failed(error) => Err(AssetFailure::ExtractFailed(error.clone())),
            ExtractionEnd::Interrupted(error) => Err(
                AssetFailure::ExtractInterrupted(error.clone()),
            ),
        },
    }
}

/// What the run does next.
pub enum BatchStep {
    /// Report that the run is over.
    Finish(ProvisioningStatusEvent),
    /// Report progress and fetch the next asset.
    Continue(ProvisioningProgressEvent),
    /// Report progress and that the run is over.
    Complete(ProvisioningProgressEvent, ProvisioningStatusEvent),
}

/// The status that ends a run on an asset that was not installed. `encoder` is the asset's
/// directory when it is an encoder.
pub open spec fn failure_status(failure: AssetFailure, encoder: Option<Seq<char>>) -> StatusView {
    let name = encoder->0;
    match failure {
        AssetFailure::Cancelled => cancelled_status(),
        AssetFailure::DownloadFailed(error) => if error@ == "cancelled"@ {
            cancelled_status()
        } else if encoder is None {
            status("error"@, "Provisioning failed: "@ + error@, Some("download_failed"@))
        } else {
            status(
                "error"@,
                "Failed to download "@ + name + ": "@ + error@,
                Some("download_failed"@),
            )
        },
        AssetFailure::CleanupFailed(error) => status(
            "error"@,
            "Failed to clean up "@ + name + " archive: "@ + error@,
            Some("archive_cleanup_failed"@),
        ),
        AssetFailure::ExtractFailed(error) => status(
            "error"@,
            "Failed to extract "@ + name + ": "@ + error@,
            Some("extract_failed"@),
        ),
        AssetFailure::ExtractInterrupted(error) => status(
            "error"@,
            "Failed to extract "@ + name + ": task join error: "@ + error@,
            Some("extract_failed"@),
        ),
    }
}

/// The share of a batch that is done, as the nearest whole percentage, halves up. Of so few assets
/// single precision gives the same share.
pub open spec fn percentage_of(current: nat, total: nat) -> nat {
    (200 * current + total) / (2 * total)
}

/// Computes the share of a batch that is done.
pub fn progress_percentage(current: usize, total: usize) -> (r: u8)
    requires
        0 < total <= MAX_BATCH_ASSETS,
        current <= total,
    ensures
        r == percentage_of(current as nat, total as nat),
        r <= 100,
        current == total ==> r == 100,
{
    let c: u32 = current as u32;
    let t: u32 = total as u32;
    assert((200 * c + t) / (2 * t) <= 100) by (nonlinear_arith)
        requires
            0 < t <= 10,
            c <= t,
    ;
    assert(c == t ==> (200 * c + t) / (2 * t) == 100) by (nonlinear_arith)
        requires
            0 < t <= 10,
    ;
    let p: u32 = (200 * c + t) / (2 * t);
    p as u8
}

/// The progress that is reported for the asset at `done`.
pub open spec fn is_progress(
    event: ProvisioningProgressEvent,
    batch: ProvisioningDownloadBatch,
    done: nat,
) -> bool {
    let models = batch.missing_models@.len();
    &&& event.current == done + 1
    &&& event.total == batch.total()
    &&& event.stage@ == "downloaded"@
    &&& event.percentage == percentage_of(done + 1, batch.total())
    &&& done < models ==> event.asset@ == batch.missing_models@[done as int]@
        && event.asset_kind@ == batch.model_asset_kind@
    &&& done >= models ==> event.asset@ == batch.missing_encoders@[done - models].0@
        && event.asset_kind@ == "whisper_encoder"@
}

/// Decides what follows the asset at `done`, given what became of it. The run is reported as
/// completed only by the last asset of the batch, and only when it was installed.
pub fn spawn_provisioning_download(
    batch: &ProvisioningDownloadBatch,
    done: usize,
    outcome: &Result<(), AssetFailure>,
) -> (r: BatchStep)
    requires
        batch.wf(),
        done < batch.total(),
        outcome is Err && outcome->Err_0.concerns_archive() ==> done >= batch.missing_models@.len(),
    ensures
        r is Finish <==> outcome is Err,
        r matches BatchStep::Finish(s) ==> s@ == failure_status(
            outcome->Err_0,
            if done < batch.missing_models@.len() {
                None
            } else {
                Some(batch.missing_encoders@[done - batch.missing_models@.len()].0@)
            },
        ),
        r is Complete <==> outcome is Ok && done + 1 == batch.total(),
        r matches BatchStep::Complete(p, s) ==> is_progress(p, *batch, done as nat) && s@
            == status("completed"@, "Provisioning completed successfully."@, None),
        r matches BatchStep::Continue(p) ==> is_progress(p, *batch, done as nat),
{
    let models: usize = batch.missing_models.len();
    let total: usize = models + batch.missing_encoders.len();
    let is_model: bool = done < models;
    let name: &str = if is_model {
        ""
    } else {
        batch.missing_encoders[done - models].0.as_str()
    };
    match outcome {
        Err(AssetFailure::Cancelled) => BatchStep::Finish(cancelled_event()),
        Err(AssetFailure::DownloadFailed(error)) => {
            if same_text(error.as_str(), "cancelled") {
                return BatchStep::Finish(cancelled_event());
            }
            let message: String = if is_model {
                let mut m: String = "Provisioning failed: ".to_owned();
                m.append(error.as_str());
                m
            } else {
                cat4("Failed to download ", name, ": ", error.as_str())
            };
            BatchStep::Finish(reasoned_status("error", message.as_str(), "download_failed"))
        },
        Err(AssetFailure::CleanupFailed(error)) => BatchStep::Finish(
            reasoned_status(
                "error",
                cat4("Failed to clean up ", name, " archive: ", error.as_str()).as_str(),
                "archive_cleanup_failed",
            ),
        ),
        Err(AssetFailure::ExtractFailed(error)) => BatchStep::Finish(
            reasoned_status(
                "error",
                cat4("Failed to extract ", name, ": ", error.as_str()).as_str(),
                "extract_failed",
            ),
        ),
        Err(AssetFailure::ExtractInterrupted(error)) => BatchStep::Finish(
            reasoned_status(
                "error",
                cat4("Failed to extract ", name, ": task join error: ", error.as_str()).as_str(),
                "extract_failed",
            ),
        ),
        Ok(()) => {
            let event = ProvisioningProgressEvent {
                current: done + 1,
                total,
                asset: if is_model {
                    batch.missing_models[done].clone()
                } else {
                    batch.missing_encoders[done - models].0.clone()
                },
                asset_kind: if is_model {
                    batch.model_asset_kind.clone()
                } else {
                    "whisper_encoder".to_owned()
                },
                stage: "downloaded".to_owned(),
                percentage: progress_percentage(done + 1, total),
            };
            if done + 1 == total {
                BatchStep::Complete(
                    event,
                    plain_status("completed", "Provisioning completed successfully."),
                )
            } else {
                BatchStep::Continue(event)
            }
        },
    }
}

/// Progress never goes back, and only a complete batch reaches it all.
pub proof fn progress_is_monotonic(a: nat, b: nat, total: nat)
    requires
        0 < total <= MAX_BATCH_ASSETS,
        a <= b <= total,
    ensures
        percentage_of(a, total) <= percentage_of(b, total) <= 100,
        percentage_of(b, total) == 100 <==> b == total,
{
    let x = (200 * a + total) as int;
    let y = (200 * b + total) as int;
    let d = (2 * total) as int;
    vstd::arithmetic::div_mod::lemma_div_is_ordered(x, y, d);
    assert(y / d <= 100 && (y / d == 100 <==> b == total)) by (nonlinear_arith)
        requires
            y == 200 * b + total,
            d == 2 * total,
            0 < total <= 100,
            0 <= b <= total,
    ;
}

// ---------------------------------------------------------------------------
// Starting a run
// ---------------------------------------------------------------------------

/// The encoders whose directory is missing, as directory and archive, in the catalog's order.
pub open spec fn missing_encoder_pairs(existing: Seq<Seq<char>>) -> Seq<(Seq<char>, Seq<char>)> {
    whisper_catalog().filter(
        |l: WhisperLine| !existing.contains(l.3),
    ).map_values(|l: WhisperLine| (l.3, l.4))
}

/// The contents of a list of directory and archive pairs.
pub open spec fn pair_views(v: Seq<(String, String)>) -> Seq<(Seq<char>, Seq<char>)> {
    v.map_values(|p: (String, String)| (p.0@, p.1@))
}

fn collect_missing_encoder_pairs(existing: &Vec<String>) -> (r: Vec<(String, String)>)
    ensures
        pair_views(r@) == missing_encoder_pairs(views(existing@)),
        r@.len() <= 5,
{
    let models: Vec<WhisperModel> = whisper_models();
    let ghost lines = whisper_catalog();
    let ghost absent = |l: WhisperLine|
        !views(existing@).contains(l.3);
    let ghost pick = |l: WhisperLine| (l.3, l.4);
    let mut out: Vec<(String, String)> = Vec::new();
    let mut i: usize = 0;
    proof {
        reveal(Seq::filter);
        assert(models@.map_values(|m: WhisperModel| m.line()).len() == 5);
        assert(lines.take(0) =~= Seq::empty());
        assert(pair_views(out@) =~= lines.take(0).filter(absent).map_values(pick));
    }
    while i < models.len()
        invariant
            i <= models@.len(),
            models@.len() == 5,
            out@.len() <= i,
            lines == whisper_catalog(),
            lines == models@.map_values(|m: WhisperModel| m.line()),
            absent == (|l: WhisperLine|
                !views(existing@).contains(l.3)),
            pick == (|l: WhisperLine| (l.3, l.4)),
            pair_views(out@) == lines.take(i as int).filter(absent).map_values(pick),
        decreases models@.len() - i,
    {
        let ghost before = pair_views(out@);
        let m: WhisperModel = models[i];
        proof {
            reveal(Seq::filter);
            assert(lines[i as int] == m.line());
            assert(lines.take(i + 1).drop_last() =~= lines.take(i as int));
            assert(lines.take(i + 1).last() == lines[i as int]);
        }
        if coreml_missing_for(existing, m.encoder_dir) {
            out.push((m.encoder_dir.to_owned(), m.encoder_archive.to_owned()));
            proof {
                assert(pair_views(out@) =~= before.push((m.encoder_dir@, m.encoder_archive@)));
                assert(lines.take(i + 1).filter(absent) == lines.take(i as int).filter(
                    absent,
                ).push(m.line()));
                assert(lines.take(i + 1).filter(absent).map_values(pick) =~= before.push(
                    pick(m.line()),
                ));
            }
        } else {
            assert(lines.take(i + 1).filter(absent) == lines.take(i as int).filter(absent));
        }
        i = i + 1;
    }
    assert(lines.take(i as int) =~= lines);
    out
}

/// Plans a provisioning run, or tells that everything is there already. Encoders are part of a
/// run unless the payload says otherwise.
pub fn provisioning_start(
    payload: &Option<ProvisioningStartPayload>,
    existing_files: &Vec<String>,
    existing_dirs: &Vec<String>,
) -> (r: Result<ProvisioningDownloadBatch, ProvisioningStatusEvent>)
    ensures
        ({
            let coreml = !(payload matches Some(p) && p.include_coreml == Some(false));
            let models = missing_from(
                required_models(),
                views(existing_files@),
            );
            let encoders = if coreml {
                missing_encoder_pairs(views(existing_dirs@))
            } else {
                Seq::empty()
            };
            &&& r is Err <==> models.len() + encoders.len() == 0
            &&& r matches Err(s) ==> s@ == status(
                "completed"@,
                "All required models are already available."@,
                None,
            )
            &&& r matches Ok(b) ==> {
                &&& b.wf()
                &&& views(b.missing_models@) == models
                &&& pair_views(b.missing_encoders@) == encoders
                &&& b.model_base_url@ == MODEL_BASE_URL@
                &&& b.model_asset_kind@ == "whisper_model"@
            }
        }),
{
    let include_coreml: bool = match payload {
        Some(p) => match p.include_coreml {
            Some(wanted) => wanted,
            None => true,
        },
        None => true,
    };
    let missing_models: Vec<String> = collect_missing_models(existing_files);
    let missing_encoders: Vec<(String, String)> = if include_coreml {
        collect_missing_encoder_pairs(existing_dirs)
    } else {
        Vec::new()
    };
    proof {
        assert(views(missing_models@).len() == missing_models@.len());
        assert(pair_views(missing_encoders@).len() == missing_encoders@.len());
        lemma_missing_bound(
            required_models(),
            views(existing_files@),
        );
        if !include_coreml {
            assert(pair_views(missing_encoders@) =~= Seq::empty());
        }
    }
    if missing_models.len() + missing_encoders.len() == 0 {
        return Err(plain_status("completed", "All required models are already available."));
    }
    Ok(
        ProvisioningDownloadBatch {
            missing_models,
            missing_encoders,
            model_base_url: MODEL_BASE_URL.to_owned(),
            model_asset_kind: "whisper_model".to_owned(),
        },
    )
}

/// What is done about a model that is asked for.
pub enum ModelDownload {
    /// It is there; report this.
    Available(ProvisioningStatusEvent),
    /// Download a Whisper model, or its encoder, or both.
    Whisper(ProvisioningDownloadBatch),
    /// Download a Parakeet model.
    Parakeet(ProvisioningDownloadBatch),
}

/// The position of a key in a list of keys.
pub open spec fn key_at(keys: Seq<Seq<char>>, key: Seq<char>, i: int) -> bool {
    0 <= i < keys.len() && keys[i] == key && forall|j: int| 0 <= j < i ==> #[trigger] keys[j] != key
}

/// The keys of the Parakeet catalog.
pub open spec fn parakeet_keys() -> Seq<Seq<char>> {
    parakeet_catalog().map_values(
        |l: (Seq<char>, Seq<char>, Seq<char>)| l.0,
    )
}

/// The keys of the Whisper catalog.
pub open spec fn whisper_keys() -> Seq<Seq<char>> {
    whisper_catalog().map_values(
        |l: WhisperLine| l.0,
    )
}

fn find_parakeet(models: &Vec<ParakeetModelEntry>, key: &str) -> (r: Option<usize>)
    requires
        models@.map_values(|m: ParakeetModelEntry| m.line())
            == parakeet_catalog(),
    ensures
        r matches Some(i) ==> key_at(parakeet_keys(), key@, i as int) && i < models@.len(),
        r is None ==> !parakeet_keys().contains(key@),
{
    let mut i: usize = 0;
    while i < models.len()
        invariant
            i <= models@.len(),
            models@.map_values(|m: ParakeetModelEntry| m.line())
                == parakeet_catalog(),
            forall|j: int| 0 <= j < i ==> #[trigger] parakeet_keys()[j] != key@,
        decreases models@.len() - i,
    {
        assert(models@.map_values(|m: ParakeetModelEntry| m.line())[i as int]
            == models@[i as int].line());
        assert(parakeet_keys()[i as int] == models@[i as int].key@);
        if same_text(models[i].key, key) {
            return Some(i);
        }
        i = i + 1;
    }
    assert(models@.map_values(|m: ParakeetModelEntry| m.line()).len() == parakeet_keys().len());
    None
}

fn find_whisper(models: &Vec<WhisperModel>, key: &str) -> (r: Option<usize>)
    requires
        models@.map_values(|m: WhisperModel| m.line())
            == whisper_catalog(),
    ensures
        r matches Some(i) ==> key_at(whisper_keys(), key@, i as int) && i < models@.len(),
        r is None ==> !whisper_keys().contains(key@),
{
    let mut i: usize = 0;
    while i < models.len()
        invariant
            i <= models@.len(),
            models@.map_values(|m: WhisperModel| m.line())
                == whisper_catalog(),
            forall|j: int| 0 <= j < i ==> #[trigger] whisper_keys()[j] != key@,
        decreases models@.len() - i,
    {
        assert(models@.map_values(|m: WhisperModel| m.line())[i as int]
            == models@[i as int].line());
        assert(whisper_keys()[i as int] == models@[i as int].key@);
        if same_text(models[i].key, key) {
            return Some(i);
        }
        i = i + 1;
    }
    assert(models@.map_values(|m: WhisperModel| m.line()).len() == whisper_keys().len());
    None
}

/// What a request for a Parakeet model comes to.
pub open spec fn is_parakeet_download(
    r: ModelDownload,
    line: (Seq<char>, Seq<char>, Seq<char>),
    installed: bool,
) -> bool {
    if installed {
        r matches ModelDownload::Available(s) && s@ == status(
            "completed"@,
            line.1 + " is already available."@,
            None,
        )
    } else {
        r matches ModelDownload::Parakeet(b) && {
            &&& b.wf()
            &&& views(b.missing_models@) == seq![line.2]
            &&& b.missing_encoders@.len() == 0
            &&& b.model_base_url@ == PARAKEET_MODEL_BASE_URL@
            &&& b.model_asset_kind@ == "parakeet_model"@
        }
    }
}

/// What a request for a Whisper model comes to.
pub open spec fn is_whisper_download(
    r: ModelDownload,
    line: WhisperLine,
    installed: bool,
    encoder_wanted: bool,
) -> bool {
    if installed && !encoder_wanted {
        r matches ModelDownload::Available(s) && s@ == status(
            "completed"@,
            line.1 + " is already available."@,
            None,
        )
    } else {
        r matches ModelDownload::Whisper(b) && {
            &&& b.wf()
            &&& views(b.missing_models@) == if installed { Seq::empty() } else { seq![line.2] }
            &&& pair_views(b.missing_encoders@) == if encoder_wanted {
                seq![(line.3, line.4)]
            } else {
                Seq::empty()
            }
            &&& b.model_base_url@ == MODEL_BASE_URL@
            &&& b.model_asset_kind@ == "whisper_model"@
        }
    }
}

/// Plans the download of one model. A key of the Parakeet catalog goes before one of the Whisper
/// catalog; any other key is refused.
pub fn provisioning_download_model(
    payload: &ProvisioningDownloadModelPayload,
    existing_files: &Vec<String>,
    existing_dirs: &Vec<String>,
    parakeet_files: &Vec<String>,
) -> (r: Result<ModelDownload, CommandError>)
    ensures
        r is Ok <==> parakeet_keys().contains(payload.model@) || whisper_keys().contains(
            payload.model@,
        ),
        r is Err ==> r->Err_0@ == command_error(
            "validation"@,
            "unknown model key: "@ + payload.model@,
        ),
        forall|i: int|
            #![trigger parakeet_keys()[i]]
            key_at(parakeet_keys(), payload.model@, i) ==> is_parakeet_download(
                r->Ok_0,
                parakeet_catalog()[i],
                views(parakeet_files@).contains(
                    parakeet_catalog()[i].2,
                ),
            ),
        forall|i: int|
            #![trigger whisper_keys()[i]]
            !parakeet_keys().contains(payload.model@) && key_at(whisper_keys(), payload.model@, i)
                ==> is_whisper_download(
                r->Ok_0,
                whisper_catalog()[i],
                views(existing_files@).contains(
                    whisper_catalog()[i].2,
                ),
                payload.include_coreml != Some(false) && !views(existing_dirs@).contains(
                    whisper_catalog()[i].3,
                ),
            ),
{
    let parakeet: Vec<ParakeetModelEntry> = parakeet_models();
    if let Some(at) = find_parakeet(&parakeet, payload.model.as_str()) {
        let entry: ParakeetModelEntry = parakeet[at];
        proof {
            assert(parakeet@.map_values(|m: ParakeetModelEntry| m.line())[at as int]
                == entry.line());
            assert(parakeet_keys().contains(payload.model@)) by {
                assert(parakeet_keys()[at as int] == payload.model@);
            }
            assert forall|i: int|
                #![trigger parakeet_keys()[i]]
                key_at(parakeet_keys(), payload.model@, i) implies i == at by {
                assert(parakeet_keys()[at as int] == payload.model@);
                assert(parakeet_keys()[i] == payload.model@);
            }
        }
        if list_contains(parakeet_files, entry.file) {
            let mut message: String = entry.label.to_owned();
            message.append(" is already available.");
            return Ok(ModelDownload::Available(plain_status("completed", message.as_str())));
        }
        let files: Vec<String> = vec![entry.file.to_owned()];
        assert(views(files@) =~= seq![entry.file@]);
        return Ok(
            ModelDownload::Parakeet(
                ProvisioningDownloadBatch {
                    missing_models: files,
                    missing_encoders: Vec::new(),
                    model_base_url: PARAKEET_MODEL_BASE_URL.to_owned(),
                    model_asset_kind: "parakeet_model".to_owned(),
                },
            ),
        );
    }
    proof {
        assert forall|i: int|
            #![trigger parakeet_keys()[i]]
            !key_at(parakeet_keys(), payload.model@, i) by {
            if key_at(parakeet_keys(), payload.model@, i) {
                assert(parakeet_keys().contains(payload.model@));
            }
        }
    }
    let whisper: Vec<WhisperModel> = whisper_models();
    match find_whisper(&whisper, payload.model.as_str()) {
        None => {
            let mut message: String = "unknown model key: ".to_owned();
            message.append(payload.model.as_str());
            proof {
                assert forall|i: int|
                    #![trigger whisper_keys()[i]]
                    !key_at(whisper_keys(), payload.model@, i) by {
                    if key_at(whisper_keys(), payload.model@, i) {
                        assert(whisper_keys().contains(payload.model@));
                    }
                }
            }
            Err(CommandError::new("validation", message.as_str()))
        },
        Some(at) => {
            let entry: WhisperModel = whisper[at];
            proof {
                assert(whisper@.map_values(|m: WhisperModel| m.line())[at as int]
                    == entry.line());
                assert(whisper_keys().contains(payload.model@)) by {
                    assert(whisper_keys()[at as int] == payload.model@);
                }
                assert forall|i: int|
                    #![trigger whisper_keys()[i]]
                    key_at(whisper_keys(), payload.model@, i) implies i == at by {
                    assert(whisper_keys()[at as int] == payload.model@);
                    assert(whisper_keys()[i] == payload.model@);
                }
            }
            let include_coreml: bool = match payload.include_coreml {
                Some(wanted) => wanted,
                None => true,
            };
            let mut files: Vec<String> = Vec::new();
            if !list_contains(existing_files, entry.file) {
                files.push(entry.file.to_owned());
                assert(views(files@) =~= seq![entry.file@]);
            } else {
                assert(views(files@) =~= Seq::empty());
            }
            let mut encoders: Vec<(String, String)> = Vec::new();
            if include_coreml && coreml_missing_for(existing_dirs, entry.encoder_dir) {
                encoders.push((entry.encoder_dir.to_owned(), entry.encoder_archive.to_owned()));
                assert(pair_views(encoders@) =~= seq![(entry.encoder_dir@, entry.encoder_archive@)]);
            } else {
                assert(pair_views(encoders@) =~= Seq::empty());
            }
            if files.len() + encoders.len() == 0 {
                let mut message: String = entry.label.to_owned();
                message.append(" is already available.");
                return Ok(ModelDownload::Available(plain_status("completed", message.as_str())));
            }
            Ok(
                ModelDownload::Whisper(
                    ProvisioningDownloadBatch {
                        missing_models: files,
                        missing_encoders: encoders,
                        model_base_url: MODEL_BASE_URL.to_owned(),
                        model_asset_kind: "whisper_model".to_owned(),
                    },
                ),
            )
        },
    }
}

// ---------------------------------------------------------------------------
// Installs
// ---------------------------------------------------------------------------

/// What an install command does.
pub enum InstallDecision {
    /// It is installed; report this.
    AlreadyInstalled(ProvisioningStatusEvent),
    /// Install it, after taking the slot.
    Install {
        /// Whether what is there now works.
        had_ready_install: bool,
        /// Whether what is there now is replaced.
        replace: bool,
    },
}

/// Decides whether the diarization runtime is installed: not when it is ready and nothing asks
/// for a repair.
pub fn provisioning_install_pyannote(
    payload: &Option<ProvisioningInstallPyannotePayload>,
    health: &PyannoteRuntimeHealth,
) -> (r: InstallDecision)
    ensures
        ({
            let repair = (payload matches Some(p) && p.force == Some(true))
                || repair_reason(trim(health.reason_code@));
            if health.ready && !repair {
                r matches InstallDecision::AlreadyInstalled(s) && s@ == status(
                    "completed"@,
                    "Pyannote diarization runtime is already installed."@,
                    None,
                )
            } else {
                r == (InstallDecision::Install { had_ready_install: health.ready, replace: repair })
            }
        }),
{
    let force: bool = match payload {
        Some(p) => match p.force {
            Some(wanted) => wanted,
            None => false,
        },
        None => false,
    };
    let replace: bool = force || is_pyannote_repair_reason(health.reason_code.as_str());
    if health.ready && !replace {
        return InstallDecision::AlreadyInstalled(
            plain_status("completed", "Pyannote diarization runtime is already installed."),
        );
    }
    InstallDecision::Install { had_ready_install: health.ready, replace }
}

/// Decides whether the transcription runtime is installed: not when it is complete, unless a new
/// install is forced.
pub fn provisioning_install_runtime(
    payload: &Option<ProvisioningInstallRuntimePayload>,
    health: &RuntimeHealth,
) -> (r: InstallDecision)
    ensures
        ({
            let force = payload matches Some(p) && p.force == Some(true);
            if toolchain_ready(*health) && !force {
                r matches InstallDecision::AlreadyInstalled(s) && s@ == status(
                    "completed"@,
                    "Local transcription runtime is already installed."@,
                    None,
                )
            } else {
                r == (InstallDecision::Install {
                    had_ready_install: toolchain_ready(*health),
                    replace: force,
                })
            }
        }),
{
    let force: bool = match payload {
        Some(p) => match p.force {
            Some(wanted) => wanted,
            None => false,
        },
        None => false,
    };
    let ready: bool = transcription_runtime_install_complete(health);
    if ready && !force {
        return InstallDecision::AlreadyInstalled(
            plain_status("completed", "Local transcription runtime is already installed."),
        );
    }
    InstallDecision::Install { had_ready_install: ready, replace: force }
}

/// Whether the transcription runtime is completely installed.
pub fn transcription_runtime_install_complete(health: &RuntimeHealth) -> (r: bool)
    ensures
        r == toolchain_ready(*health),
{
    check_toolchain(health)
}

// ---------------------------------------------------------------------------
// The setup report
// ---------------------------------------------------------------------------

/// One step of the setup.
#[derive(Debug)]
pub struct SetupReportStepPayload {
    pub id: String,
    pub label: String,
    pub status: String,
    pub detail: Option<String>,
    pub started_at: Option<String>,
    pub finished_at: Option<String>,
}

/// What is stored of a setup. The health of the runtime is stored as it was sent.
#[derive(Debug)]
pub struct WriteSetupReportPayload {
    pub privacy_accepted: bool,
    pub setup_complete: bool,
    pub final_reason_code: Option<String>,
    pub final_error: Option<String>,
    pub runtime_health: Option<String>,
    pub steps: Vec<SetupReportStepPayload>,
}

/// The stored report of a setup, and whether a start may rely on it.
#[derive(Debug)]
pub struct ReadSetupReportResponse {
    pub build_version: String,
    pub privacy_accepted: bool,
    pub setup_complete: bool,
    pub final_reason_code: Option<String>,
    pub final_error: Option<String>,
    pub runtime_health: Option<String>,
    pub steps: Vec<SetupReportStepPayload>,
    pub updated_at: String,
    pub trusted_for_fast_start: bool,
}

/// Whether a start may rely on a setup report: it was written by this version, for a setup that
/// was accepted and completed without an error.
pub open spec fn trusted_setup(report: ReadSetupReportResponse, app_version: Seq<char>) -> bool {
    &&& trim(report.build_version@) == app_version
    &&& report.privacy_accepted
    &&& report.setup_complete
    &&& (report.final_error matches Some(e) ==> trim(e@).len() == 0)
    &&& opt_view(report.final_reason_code) == Some("setup_complete"@)
}

/// What of a payload a report holds.
pub open spec fn holds_payload(
    report: ReadSetupReportResponse,
    payload: WriteSetupReportPayload,
) -> bool {
    &&& report.privacy_accepted == payload.privacy_accepted
    &&& report.setup_complete == payload.setup_complete
    &&& report.final_reason_code == payload.final_reason_code
    &&& report.final_error == payload.final_error
    &&& report.runtime_health == payload.runtime_health
    &&& report.steps == payload.steps
}

/// Makes the report of a setup, as it is stored.
pub fn write_setup_report(
    payload: WriteSetupReportPayload,
    app_version: &str,
    updated_at: String,
) -> (r: ReadSetupReportResponse)
    ensures
        holds_payload(r, payload),
        r.build_version@ == app_version@,
        r.updated_at == updated_at,
        !r.trusted_for_fast_start,
{
    ReadSetupReportResponse {
        build_version: app_version.to_owned(),
        privacy_accepted: payload.privacy_accepted,
        setup_complete: payload.setup_complete,
        final_reason_code: payload.final_reason_code,
        final_error: payload.final_error,
        runtime_health: payload.runtime_health,
        steps: payload.steps,
        updated_at,
        trusted_for_fast_start: false,
    }
}

/// Decides whether a start may rely on a stored report, whatever is stored of that.
pub fn read_setup_report(report: &mut ReadSetupReportResponse, app_version: &str)
    ensures
        *final(report) == (ReadSetupReportResponse {
            trusted_for_fast_start: trusted_setup(*old(report), app_version@),
            ..*old(report)
        }),
{
    let no_error: bool = match &report.final_error {
        Some(error) => trim_text(error.as_str()).as_str().is_empty(),
        None => true,
    };
    let completed: bool = match &report.final_reason_code {
        Some(code) => same_text(code.as_str(), "setup_complete"),
        None => false,
    };
    report.trusted_for_fast_start =
    same_text(trim_text(report.build_version.as_str()).as_str(), app_version)
        && report.privacy_accepted && report.setup_complete && no_error && completed;
}

/// A report is trusted by the version that wrote it exactly when the setup was accepted and
/// completed without an error, and by no other version.
pub proof fn a_setup_is_trusted_by_its_version(
    report: ReadSetupReportResponse,
    payload: WriteSetupReportPayload,
    written_by: Seq<char>,
    app_version: Seq<char>,
)
    requires
        holds_payload(report, payload),
        report.build_version@ == written_by,
        trim(written_by) == written_by,
    ensures
        trusted_setup(report, app_version) <==> written_by == app_version
            && payload.privacy_accepted && payload.setup_complete && (
        payload.final_error matches Some(e) ==> trim(e@).len() == 0) && opt_view(
            payload.final_reason_code,
        ) == Some("setup_complete"@),
{
}

/// A run fetches an encoder exactly when its directory is missing, each with its own archive.
pub proof fn a_run_fetches_missing_encoders(existing: Seq<Seq<char>>, i: int)
    requires
        0 <= i < whisper_catalog().len(),
    ensures
        missing_encoder_pairs(existing).contains((whisper_catalog()[i].3, whisper_catalog()[i].4))
            <==> !existing.contains(whisper_catalog()[i].3),
        forall|k: int|
            0 <= k < missing_encoder_pairs(existing).len() ==> !existing.contains(
                (#[trigger] missing_encoder_pairs(existing)[k]).0,
            ),
{
    broadcast use vstd::seq_lib::group_filter_ensures;

    let lines = whisper_catalog();
    let absent = |l: WhisperLine| !existing.contains(l.3);
    let kept = lines.filter(absent);
    let pairs = missing_encoder_pairs(existing);
    let l = lines[i];
    assert forall|k: int| 0 <= k < pairs.len() implies !existing.contains((#[trigger] pairs[k]).0) by {
        assert(absent(kept[k]));
    }
    if absent(l) {
        assert(lines.contains(l));
        assert(kept.contains(l));
        let k = choose|k: int| 0 <= k < kept.len() && kept[k] == l;
        assert(pairs[k] == (l.3, l.4));
    }
}

/// A share is the nearest whole percentage.
pub proof fn a_percentage_is_near(current: nat, total: nat)
    requires
        0 < total,
        current <= total,
    ensures
        2 * (percentage_of(current, total) * total - 100 * current) <= total,
        2 * (100 * current - percentage_of(current, total) * total) <= total,
{
    let x = 200 * current + total;
    let d = 2 * total;
    let p = x / d;
    assert(p * d <= x < p * d + d) by (nonlinear_arith)
        requires
            p == x / d,
            d > 0,
    ;
    assert(p * d == 2 * (p * total)) by (nonlinear_arith)
        requires
            d == 2 * total,
    ;
}

proof fn lemma_said(a: Seq<char>, name: Seq<char>, b: Seq<char>, error: Seq<char>)
    ensures
        contains(a + name + b + error, name),
        contains(a + name + b + error, error),
{
    lemma_contains_middle(a, name, b + error);
    assert(a + name + (b + error) =~= a + name + b + error);
    lemma_contains_middle(a + name + b, error, Seq::empty());
    assert(a + name + b + error + Seq::empty() =~= a + name + b + error);
}

/// A run that was cancelled is told as that. A failure is told as an error, with what went wrong, with the
/// encoder that it concerns, and under the reason of the step that failed.
pub proof fn a_failed_run_says_why(failure: AssetFailure, encoder: Option<Seq<char>>)
    ensures
        ({
            let s = failure_status(failure, encoder);
            match failure {
                AssetFailure::Cancelled => s.state == "cancelled"@ && s.reason_code == Some(
                    "cancelled"@,
                ),
                AssetFailure::DownloadFailed(e) => if e@ == "cancelled"@ {
                    s.state == "cancelled"@ && s.reason_code == Some("cancelled"@)
                } else {
                    &&& s.state == "error"@
                    &&& s.reason_code == Some("download_failed"@)
                    &&& contains(s.message, e@)
                    &&& encoder matches Some(n) ==> contains(s.message, n)
                },
                AssetFailure::CleanupFailed(e) => {
                    &&& s.state == "error"@
                    &&& s.reason_code == Some("archive_cleanup_failed"@)
                    &&& contains(s.message, e@)
                    &&& encoder matches Some(n) ==> contains(s.message, n)
                },
                AssetFailure::ExtractFailed(e) => {
                    &&& s.state == "error"@
                    &&& s.reason_code == Some("extract_failed"@)
                    &&& contains(s.message, e@)
                    &&& encoder matches Some(n) ==> contains(s.message, n)
                },
                AssetFailure::ExtractInterrupted(e) => {
                    &&& s.state == "error"@
                    &&& s.reason_code == Some("extract_failed"@)
                    &&& contains(s.message, e@)
                    &&& encoder matches Some(n) ==> contains(s.message, n)
                },
            }
        }),
{
    let name = encoder->0;
    match failure {
        AssetFailure::Cancelled => {},
        AssetFailure::DownloadFailed(e) => {
            lemma_said("Failed to download "@, name, ": "@, e@);
            let a = "Provisioning failed: "@;
            lemma_contains_middle(a, e@, Seq::empty());
            assert(a + e@ + Seq::empty() =~= a + e@);
        },
        AssetFailure::CleanupFailed(e) => lemma_said(
            "Failed to clean up "@,
            name,
            " archive: "@,
            e@,
        ),
        AssetFailure::ExtractFailed(e) => lemma_said("Failed to extract "@, name, ": "@, e@),
        AssetFailure::ExtractInterrupted(e) => lemma_said(
            "Failed to extract "@,
            name,
            ": task join error: "@,
            e@,
        ),
    }
}

/// What a run reports after an asset is about that asset: it counts it, names it, and says of which kind
/// it is.
pub proof fn progress_is_about_its_asset(
    event: ProvisioningProgressEvent,
    batch: ProvisioningDownloadBatch,
    done: nat,
)
    requires
        is_progress(event, batch, done),
        done < batch.total(),
    ensures
        event.current == done + 1,
        event.total == batch.missing_models@.len() + batch.missing_encoders@.len(),
        done < batch.missing_models@.len() ==> event.asset@ == batch.missing_models@[done as int]@
            && event.asset_kind@ == batch.model_asset_kind@,
        done >= batch.missing_models@.len() ==> event.asset@ == batch.missing_encoders@[done
            - batch.missing_models@.len()].0@ && event.asset_kind@ == "whisper_encoder"@,
        2 * (event.percentage * event.total - 100 * event.current) <= event.total,
        2 * (100 * event.current - event.percentage * event.total) <= event.total,
{
    a_percentage_is_near(done + 1, batch.total());
}

/// A model that is asked for is the one that is fetched, from where its engine's models are, and nothing
/// of it is fetched that is there.
pub proof fn the_asked_model_is_fetched(
    r: ModelDownload,
    line: WhisperLine,
    other: (Seq<char>, Seq<char>, Seq<char>),
    installed: bool,
    encoder_wanted: bool,
)
    ensures
        is_whisper_download(r, line, installed, encoder_wanted) ==> {
            &&& r is Available <==> installed && !encoder_wanted
            &&& r matches ModelDownload::Available(s) ==> starts_with(s@.message, line.1)
            &&& r matches ModelDownload::Whisper(b) ==> {
                &&& b.model_base_url@ == MODEL_BASE_URL@
                &&& b.model_asset_kind@ == "whisper_model"@
                &&& b.missing_models@.len() == (if installed { 0int } else { 1 })
                &&& !installed ==> b.missing_models@[0]@ == line.2
                &&& b.missing_encoders@.len() == (if encoder_wanted { 1int } else { 0 })
                &&& encoder_wanted ==> b.missing_encoders@[0].0@ == line.3
                    && b.missing_encoders@[0].1@ == line.4
            }
        },
        is_parakeet_download(r, other, installed) ==> {
            &&& r is Available <==> installed
            &&& r matches ModelDownload::Available(s) ==> starts_with(s@.message, other.1)
            &&& r matches ModelDownload::Parakeet(b) ==> {
                &&& b.model_base_url@ == PARAKEET_MODEL_BASE_URL@
                &&& b.model_asset_kind@ == "parakeet_model"@
                &&& b.missing_models@.len() == 1
                &&& b.missing_models@[0]@ == other.2
                &&& b.missing_encoders@.len() == 0
            }
        },
{
    let tail = " is already available."@;
    assert((line.1 + tail).take(line.1.len() as int) =~= line.1);
    assert((other.1 + tail).take(other.1.len() as int) =~= other.1);
    if is_whisper_download(r, line, installed, encoder_wanted) {
        if let ModelDownload::Whisper(b) = r {
            assert(views(b.missing_models@).len() == b.missing_models@.len());
            assert(pair_views(b.missing_encoders@).len() == b.missing_encoders@.len());
            if !installed {
                assert(views(b.missing_models@)[0] == line.2);
            }
            if encoder_wanted {
                assert(pair_views(b.missing_encoders@)[0] == (line.3, line.4));
            }
        }
    }
    if is_parakeet_download(r, other, installed) {
        if let ModelDownload::Parakeet(b) = r {
            assert(views(b.missing_models@).len() == b.missing_models@.len());
            assert(views(b.missing_models@)[0] == other.2);
        }
    }
}

} // verus!
