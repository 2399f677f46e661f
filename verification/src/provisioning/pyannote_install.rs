//! The procedures that install the diarization runtime, from a release or from bundled assets.

use vstd::prelude::*;
use vstd::string::*;

use crate::provisioning::batch::{plain_status, reasoned_status, status};
use crate::provisioning::install_actions::{
    action_views, failure_record, installed_progress, persist_pyannote_install_failure,
    push_action, ActionView, InstallAction, ProgressView, StepOutcome,
};
use crate::text::{cat4, contains, ends_with, lemma_contains_middle, same_text, trim};

verus! {

/// An asset of the diarization runtime.
#[derive(Clone, Copy, PartialEq, Eq, Structural, Debug)]
pub enum PyannoteAsset {
    Runtime,
    Model,
}

/// The steps of an install from a release, in order.
#[derive(Clone, Copy, PartialEq, Eq, Structural, Debug)]
pub enum PyannoteStep {
    /// Make the staging directory.
    PrepareStage,
    /// Choose the assets of the release.
    SelectAssets,
    /// Check the free space.
    CheckSpace,
    /// Fetch an archive.
    Fetch(PyannoteAsset),
    /// Check an archive's digest.
    Verify(PyannoteAsset),
    /// Extract an archive into the stage.
    Extract(PyannoteAsset),
    /// Write the manifest into the stage.
    WriteManifest,
    /// Swap the stage in.
    Promote,
    /// Validate the published runtime.
    Validate,
    /// Import the runtime and load the model.
    Probe,
    /// Write the status of a ready runtime, [`ready_status`].
    WriteStatus,
    /// The procedure is over.
    Over,
}

/// The reason code and the message that an install writes when its runtime is ready.
pub fn ready_status() -> (r: (String, String))
    ensures
        r.0@ == "ok"@,
        r.1@ == "Pyannote diarization runtime is ready."@,
{
    ("ok".to_owned(), "Pyannote diarization runtime is ready.".to_owned())
}

/// The step that follows a step that succeeded.
pub open spec fn following(step: PyannoteStep) -> PyannoteStep {
    match step {
        PyannoteStep::PrepareStage => PyannoteStep::SelectAssets,
        PyannoteStep::SelectAssets => PyannoteStep::CheckSpace,
        PyannoteStep::CheckSpace => PyannoteStep::Fetch(PyannoteAsset::Runtime),
        PyannoteStep::Fetch(asset) => PyannoteStep::Verify(asset),
        PyannoteStep::Verify(asset) => PyannoteStep::Extract(asset),
        PyannoteStep::Extract(PyannoteAsset::Runtime) => PyannoteStep::Fetch(PyannoteAsset::Model),
        PyannoteStep::Extract(PyannoteAsset::Model) => PyannoteStep::WriteManifest,
        PyannoteStep::WriteManifest => PyannoteStep::Promote,
        PyannoteStep::Promote => PyannoteStep::Validate,
        PyannoteStep::Validate => PyannoteStep::Probe,
        PyannoteStep::Probe => PyannoteStep::WriteStatus,
        PyannoteStep::WriteStatus => PyannoteStep::Over,
        PyannoteStep::Over => PyannoteStep::Over,
    }
}

/// The names of the two assets of the release that is installed.
pub struct PyannoteAssetNames {
    pub runtime: String,
    pub model: String,
}

impl PyannoteAssetNames {
    /// The name of an asset.
    pub open spec fn name(&self, asset: PyannoteAsset) -> Seq<char> {
        match asset {
            PyannoteAsset::Runtime => self.runtime@,
            PyannoteAsset::Model => self.model@,
        }
    }

    fn get(&self, asset: PyannoteAsset) -> (r: &str)
        ensures
            r@ == self.name(asset),
    {
        match asset {
            PyannoteAsset::Runtime => self.runtime.as_str(),
            PyannoteAsset::Model => self.model.as_str(),
        }
    }
}

/// The actions after a step that succeeded: progress after each extraction, and the report of
/// success after the last step.
pub open spec fn success_actions(step: PyannoteStep, names: PyannoteAssetNames) -> Seq<ActionView> {
    match step {
        PyannoteStep::Extract(asset) => seq![
            ActionView::RemoveArchive,
            ActionView::Progress(
                ProgressView {
                    current: if asset is Runtime { 1 } else { 2 },
                    total: 2,
                    asset: names.name(asset),
                    asset_kind: if asset is Runtime {
                        "pyannote_runtime"@
                    } else {
                        "pyannote_model"@
                    },
                    stage: "installed"@,
                    percentage: if asset is Runtime { 50 } else { 100 },
                },
            ),
        ],
        PyannoteStep::WriteStatus => seq![
            ActionView::Emit(
                status(
                    "completed"@,
                    "Pyannote diarization runtime installed successfully."@,
                    None,
                ),
            ),
            ActionView::CleanupBackup,
        ],
        _ => Seq::empty(),
    }
}

/// The message of a cancelled install.
pub open spec fn cancelled_message() -> Seq<char> {
    "Pyannote installation was cancelled before completion."@
}

/// The report of a cancelled install.
pub open spec fn cancelled_report() -> ActionView {
    ActionView::Emit(
        status("cancelled"@, "Pyannote installation cancelled."@, Some("cancelled"@)),
    )
}

/// The reason under which the failure of a step is reported and recorded.
pub open spec fn failure_reason(step: PyannoteStep, error: Seq<char>) -> Seq<char> {
    match step {
        PyannoteStep::Verify(_) => "pyannote_checksum_invalid"@,
        PyannoteStep::Probe => if error == "cancelled"@ {
            "cancelled"@
        } else {
            "pyannote_import_load_failed"@
        },
        _ => "pyannote_install_incomplete"@,
    }
}

/// The message under which the failure of a step is reported and recorded.
pub open spec fn failure_message(
    step: PyannoteStep,
    interrupted: bool,
    error: Seq<char>,
    names: PyannoteAssetNames,
) -> Seq<char> {
    match step {
        PyannoteStep::Fetch(asset) => "Failed to download "@ + names.name(asset) + ": "@ + error,
        PyannoteStep::Extract(asset) if interrupted => "Failed to install "@ + names.name(asset)
            + ": task join error: "@ + error,
        _ => error,
    }
}

/// What undoes the steps before a step that failed: nothing before there is a stage, the removal
/// of the stage until it is swapped in, the rollback of the swap after that.
pub open spec fn undo(step: PyannoteStep) -> Seq<ActionView> {
    match step {
        PyannoteStep::PrepareStage => Seq::empty(),
        PyannoteStep::Validate | PyannoteStep::Probe | PyannoteStep::WriteStatus => seq![
            ActionView::Rollback,
        ],
        _ => seq![ActionView::CleanupStage],
    }
}

/// Whether a step leaves a downloaded archive behind when it fails.
pub open spec fn leaves_archive(step: PyannoteStep) -> Seq<ActionView> {
    match step {
        PyannoteStep::Fetch(_) | PyannoteStep::Verify(_) | PyannoteStep::Extract(_) => seq![
            ActionView::RemoveArchive,
        ],
        _ => Seq::empty(),
    }
}

/// The actions after a step that failed with `error`.
pub open spec fn failed_actions(
    step: PyannoteStep,
    interrupted: bool,
    error: Seq<char>,
    had_ready_install: bool,
    names: PyannoteAssetNames,
) -> Seq<ActionView> {
    if step is Fetch && error == "cancelled"@ {
        seq![ActionView::RemoveArchive, cancelled_report(), ActionView::CleanupStage] + (
        if had_ready_install {
            Seq::empty()
        } else {
            seq![
                ActionView::WriteStatus {
                    reason_code: "pyannote_install_incomplete"@,
                    message: cancelled_message(),
                },
            ]
        })
    } else {
        let message = failure_message(step, interrupted, error, names);
        let reason = failure_reason(step, error);
        leaves_archive(step) + seq![ActionView::Emit(status("error"@, message, Some(reason)))]
            + undo(step) + failure_record(had_ready_install, reason, message)
    }
}

/// The actions of a run that was cancelled between two assets.
pub open spec fn cancelled_actions(had_ready_install: bool) -> Seq<ActionView> {
    seq![cancelled_report(), ActionView::CleanupStage] + failure_record(
        had_ready_install,
        "pyannote_install_incomplete"@,
        cancelled_message(),
    )
}

/// The actions after a step.
pub open spec fn actions_after(
    step: PyannoteStep,
    outcome: StepOutcome,
    had_ready_install: bool,
    names: PyannoteAssetNames,
) -> Seq<ActionView> {
    match outcome {
        StepOutcome::Done => success_actions(step, names),
        StepOutcome::Cancelled => cancelled_actions(had_ready_install),
        StepOutcome::Failed(error) => failed_actions(step, false, error@, had_ready_install, names),
        StepOutcome::Interrupted(error) => failed_actions(
            step,
            true,
            error@,
            had_ready_install,
            names,
        ),
    }
}

fn step_after(step: PyannoteStep) -> (r: PyannoteStep)
    ensures
        r == following(step),
{
    match step {
        PyannoteStep::PrepareStage => PyannoteStep::SelectAssets,
        PyannoteStep::SelectAssets => PyannoteStep::CheckSpace,
        PyannoteStep::CheckSpace => PyannoteStep::Fetch(PyannoteAsset::Runtime),
        PyannoteStep::Fetch(asset) => PyannoteStep::Verify(asset),
        PyannoteStep::Verify(asset) => PyannoteStep::Extract(asset),
        PyannoteStep::Extract(PyannoteAsset::Runtime) => PyannoteStep::Fetch(PyannoteAsset::Model),
        PyannoteStep::Extract(PyannoteAsset::Model) => PyannoteStep::WriteManifest,
        PyannoteStep::WriteManifest => PyannoteStep::Promote,
        PyannoteStep::Promote => PyannoteStep::Validate,
        PyannoteStep::Validate => PyannoteStep::Probe,
        PyannoteStep::Probe => PyannoteStep::WriteStatus,
        PyannoteStep::WriteStatus => PyannoteStep::Over,
        PyannoteStep::Over => PyannoteStep::Over,
    }
}

fn after_failure(
    step: PyannoteStep,
    interrupted: bool,
    error: &str,
    had_ready_install: bool,
    names: &PyannoteAssetNames,
) -> (actions: Vec<InstallAction>)
    ensures
        action_views(actions@) == failed_actions(
            step,
            interrupted,
            error@,
            had_ready_install,
            *names,
        ),
{
    let mut actions: Vec<InstallAction> = Vec::new();
    let ghost want = failed_actions(step, interrupted, error@, had_ready_install, *names);
    assert(action_views(actions@) =~= Seq::<ActionView>::empty());
    let is_fetch: bool = match step {
        PyannoteStep::Fetch(_) => true,
        _ => false,
    };
    if is_fetch && same_text(error, "cancelled") {
        push_action(&mut actions, InstallAction::RemoveArchive);
        push_action(
            &mut actions,
            InstallAction::Emit(
                reasoned_status("cancelled", "Pyannote installation cancelled.", "cancelled"),
            ),
        );
        push_action(&mut actions, InstallAction::CleanupStage);
        if !had_ready_install {
            push_action(
                &mut actions,
                InstallAction::WriteStatus {
                    reason_code: "pyannote_install_incomplete".to_owned(),
                    message: "Pyannote installation was cancelled before completion.".to_owned(),
                },
            );
        }
        assert(action_views(actions@) =~= want);
        return actions;
    }
    let message: String = match step {
        PyannoteStep::Fetch(asset) => cat4("Failed to download ", names.get(asset), ": ", error),
        PyannoteStep::Extract(asset) => {
            if interrupted {
                cat4("Failed to install ", names.get(asset), ": task join error: ", error)
            } else {
                error.to_owned()
            }
        },
        _ => error.to_owned(),
    };
    let reason: &str = match step {
        PyannoteStep::Verify(_) => "pyannote_checksum_invalid",
        PyannoteStep::Probe => {
            if same_text(error, "cancelled") {
                "cancelled"
            } else {
                "pyannote_import_load_failed"
            }
        },
        _ => "pyannote_install_incomplete",
    };
    match step {
        PyannoteStep::Fetch(_) => push_action(&mut actions, InstallAction::RemoveArchive),
        PyannoteStep::Verify(_) => push_action(&mut actions, InstallAction::RemoveArchive),
        PyannoteStep::Extract(_) => push_action(&mut actions, InstallAction::RemoveArchive),
        _ => {},
    }
    assert(action_views(actions@) =~= leaves_archive(step));
    push_action(
        &mut actions,
        InstallAction::Emit(reasoned_status("error", message.as_str(), reason)),
    );
    let ghost so_far = action_views(actions@);
    match step {
        PyannoteStep::PrepareStage => {},
        PyannoteStep::Validate => push_action(&mut actions, InstallAction::Rollback),
        PyannoteStep::Probe => push_action(&mut actions, InstallAction::Rollback),
        PyannoteStep::WriteStatus => push_action(&mut actions, InstallAction::Rollback),
        _ => push_action(&mut actions, InstallAction::CleanupStage),
    }
    assert(action_views(actions@) =~= so_far + undo(step));
    persist_pyannote_install_failure(&mut actions, had_ready_install, reason, message.as_str());
    assert(action_views(actions@) =~= want);
    actions
}

/// Decides what follows a step of an install from a release, given how it ended.
pub fn spawn_pyannote_provisioning_download(
    step: PyannoteStep,
    outcome: &StepOutcome,
    had_ready_install: bool,
    names: &PyannoteAssetNames,
) -> (r: (PyannoteStep, Vec<InstallAction>))
    ensures
        r.0 == if outcome is Done { following(step) } else { PyannoteStep::Over },
        action_views(r.1@) == actions_after(step, *outcome, had_ready_install, *names),
{
    match outcome {
        StepOutcome::Done => {
            let mut actions: Vec<InstallAction> = Vec::new();
            match step {
                PyannoteStep::Extract(asset) => {
                    push_action(&mut actions, InstallAction::RemoveArchive);
                    let progress: InstallAction = match asset {
                        PyannoteAsset::Runtime => installed_progress(
                            1,
                            2,
                            names.get(asset),
                            "pyannote_runtime",
                            50,
                        ),
                        PyannoteAsset::Model => installed_progress(
                            2,
                            2,
                            names.get(asset),
                            "pyannote_model",
                            100,
                        ),
                    };
                    push_action(&mut actions, progress);
                },
                PyannoteStep::WriteStatus => {
                    push_action(
                        &mut actions,
                        InstallAction::Emit(
                            plain_status(
                                "completed",
                                "Pyannote diarization runtime installed successfully.",
                            ),
                        ),
                    );
                    push_action(&mut actions, InstallAction::CleanupBackup);
                },
                _ => {},
            }
            assert(action_views(actions@) =~= success_actions(step, *names));
            (step_after(step), actions)
        },
        StepOutcome::Cancelled => {
            let mut actions: Vec<InstallAction> = Vec::new();
            push_action(
                &mut actions,
                InstallAction::Emit(
                    reasoned_status("cancelled", "Pyannote installation cancelled.", "cancelled"),
                ),
            );
            push_action(&mut actions, InstallAction::CleanupStage);
            persist_pyannote_install_failure(
                &mut actions,
                had_ready_install,
                "pyannote_install_incomplete",
                "Pyannote installation was cancelled before completion.",
            );
            assert(action_views(actions@) =~= cancelled_actions(had_ready_install));
            (PyannoteStep::Over, actions)
        },
        StepOutcome::Failed(error) => (
            PyannoteStep::Over,
            after_failure(step, false, error.as_str(), had_ready_install, names),
        ),
        StepOutcome::Interrupted(error) => (
            PyannoteStep::Over,
            after_failure(step, true, error.as_str(), had_ready_install, names),
        ),
    }
}

/// A repair that fails, at whatever step, never touches the status of an install that worked.
pub proof fn failed_repair_keeps_status(
    step: PyannoteStep,
    outcome: StepOutcome,
    names: PyannoteAssetNames,
    i: int,
)
    requires
        outcome !is Done,
        0 <= i < actions_after(step, outcome, true, names).len(),
    ensures
        actions_after(step, outcome, true, names)[i] !is WriteStatus,
        actions_after(step, outcome, true, names)[i] !is CleanWorkdir,
{
}

/// Success is reported only after the last step, and no step after which anything failed reports
/// it; a failure after the swap is rolled back, one before it removes the stage.
pub proof fn failures_are_undone(
    step: PyannoteStep,
    outcome: StepOutcome,
    had_ready_install: bool,
    names: PyannoteAssetNames,
)
    requires
        step !is Over,
    ensures
        outcome !is Done ==> forall|i: int|
            0 <= i < actions_after(step, outcome, had_ready_install, names).len() ==> (
            #[trigger] actions_after(step, outcome, had_ready_install, names)[i] matches
                ActionView::Emit(s) ==> s.state != "completed"@),
        outcome is Done && step !is WriteStatus ==> forall|i: int|
            0 <= i < actions_after(step, outcome, had_ready_install, names).len() ==> #[trigger] actions_after(
                step,
                outcome,
                had_ready_install,
                names,
            )[i] !is Emit,
        (outcome is Failed || outcome is Interrupted) && (step is Validate || step is Probe || step
            is WriteStatus) ==> actions_after(step, outcome, had_ready_install, names).contains(
            ActionView::Rollback,
        ),
        (outcome is Failed || outcome is Interrupted) && !(step is PrepareStage || step is Validate
            || step is Probe || step is WriteStatus) ==> actions_after(
            step,
            outcome,
            had_ready_install,
            names,
        ).contains(ActionView::CleanupStage),
{
    reveal_strlit("completed");
    reveal_strlit("error");
    reveal_strlit("cancelled");
    assert("completed"@.len() != "error"@.len());
    assert("completed"@[1] == 'o');
    assert("cancelled"@[1] == 'a');
    let acts = actions_after(step, outcome, had_ready_install, names);
    if outcome is Failed || outcome is Interrupted {
        let error = if outcome is Failed { outcome->Failed_0@ } else { outcome->Interrupted_0@ };
        let first = leaves_archive(step).len() as int;
        if step is Fetch && error == "cancelled"@ {
            assert(acts[2] == ActionView::CleanupStage);
        } else if step !is PrepareStage {
            assert(acts[first + 1] == undo(step)[0]);
        }
    }
}

// ---------------------------------------------------------------------------
// Bundled assets
// ---------------------------------------------------------------------------

/// The steps of an install from bundled assets, in order.
#[derive(Clone, Copy, PartialEq, Eq, Structural, Debug)]
pub enum BundledStep {
    /// See whether the run was cancelled.
    Begin,
    /// Move a working install to a backup; there is none to move otherwise.
    Swap,
    /// Install the bundled assets.
    Install,
    /// Validate the installed runtime.
    Validate,
    /// Import the runtime and load the model.
    Probe,
    /// Write the status of a ready runtime, [`ready_status`].
    WriteStatus,
    /// The procedure is over.
    Over,
}

/// The step that follows a step that succeeded.
pub open spec fn bundled_following(step: BundledStep, had_ready_install: bool) -> BundledStep {
    match step {
        BundledStep::Begin => if had_ready_install { BundledStep::Swap } else { BundledStep::Install },
        BundledStep::Swap => BundledStep::Install,
        BundledStep::Install => BundledStep::Validate,
        BundledStep::Validate => BundledStep::Probe,
        BundledStep::Probe => BundledStep::WriteStatus,
        BundledStep::WriteStatus => BundledStep::Over,
        BundledStep::Over => BundledStep::Over,
    }
}

/// The progress of one of the two bundled assets.
pub open spec fn bundled_progress(asset: PyannoteAsset) -> ActionView {
    ActionView::Progress(
        ProgressView {
            current: if asset is Runtime { 1 } else { 2 },
            total: 2,
            asset: if asset is Runtime {
                "bundled-pyannote-runtime"@
            } else {
                "bundled-pyannote-model"@
            },
            asset_kind: if asset is Runtime { "pyannote_runtime"@ } else { "pyannote_model"@ },
            stage: "installed"@,
            percentage: if asset is Runtime { 50 } else { 100 },
        },
    )
}

/// The actions after a step that succeeded.
pub open spec fn bundled_success(step: BundledStep) -> Seq<ActionView> {
    match step {
        BundledStep::Install => seq![
            bundled_progress(PyannoteAsset::Runtime),
            bundled_progress(PyannoteAsset::Model),
        ],
        BundledStep::WriteStatus => seq![
            ActionView::Emit(
                status(
                    "completed"@,
                    "Pyannote diarization runtime installed successfully."@,
                    None,
                ),
            ),
            ActionView::CleanupBackup,
        ],
        _ => Seq::empty(),
    }
}

/// The reason under which the failure of a step is reported and recorded.
pub open spec fn bundled_reason(step: BundledStep, error: Seq<char>) -> Seq<char> {
    match step {
        BundledStep::Install | BundledStep::Validate => "pyannote_repair_required"@,
        BundledStep::Probe => if error == "cancelled"@ {
            "cancelled"@
        } else {
            "pyannote_import_load_failed"@
        },
        _ => "pyannote_install_incomplete"@,
    }
}

/// The actions after a step that failed. Once the swap was made, the previous install is put back.
pub open spec fn bundled_failure(
    step: BundledStep,
    error: Seq<char>,
    had_ready_install: bool,
) -> Seq<ActionView> {
    let reason = bundled_reason(step, error);
    let report = ActionView::Emit(status("error"@, error, Some(reason)));
    let record = failure_record(had_ready_install, reason, error);
    match step {
        BundledStep::Install | BundledStep::Validate | BundledStep::Probe => seq![
            ActionView::Rollback,
            report,
        ] + record,
        BundledStep::WriteStatus => seq![report, ActionView::Rollback] + record,
        _ => seq![report] + record,
    }
}

/// The actions of a run that was cancelled before it began.
pub open spec fn bundled_cancelled(had_ready_install: bool) -> Seq<ActionView> {
    seq![cancelled_report()] + failure_record(
        had_ready_install,
        "cancelled"@,
        cancelled_message(),
    )
}

/// How a step of a bundled install ended.
pub enum BundledOutcome {
    Done,
    /// The run was cancelled before it began.
    Cancelled,
    Failed(String),
}

/// The actions after a step.
pub open spec fn bundled_actions(
    step: BundledStep,
    outcome: BundledOutcome,
    had_ready_install: bool,
) -> Seq<ActionView> {
    match outcome {
        BundledOutcome::Done => bundled_success(step),
        BundledOutcome::Cancelled => bundled_cancelled(had_ready_install),
        BundledOutcome::Failed(error) => bundled_failure(step, error@, had_ready_install),
    }
}

/// Reads the result of installing the bundled assets: not finding any is a failure.
pub fn bundled_install_outcome(installed: &Result<bool, String>) -> (r: BundledOutcome)
    ensures
        r is Done <==> installed == Result::<bool, String>::Ok(true),
        r !is Cancelled,
        installed matches Err(e) ==> r->Failed_0@ == e@,
        installed == Result::<bool, String>::Ok(false) ==> r->Failed_0@
            == "Bundled pyannote runtime is not available."@,
{
    match installed {
        Ok(true) => BundledOutcome::Done,
        Ok(false) => BundledOutcome::Failed(
            "Bundled pyannote runtime is not available.".to_owned(),
        ),
        Err(error) => BundledOutcome::Failed(error.clone()),
    }
}

/// Decides what follows a step of an install from bundled assets, given how it ended.
pub fn spawn_pyannote_bundled_install(
    step: BundledStep,
    outcome: &BundledOutcome,
    had_ready_install: bool,
) -> (r: (BundledStep, Vec<InstallAction>))
    ensures
        r.0 == if outcome is Done {
            bundled_following(step, had_ready_install)
        } else {
            BundledStep::Over
        },
        action_views(r.1@) == bundled_actions(step, *outcome, had_ready_install),
{
    let mut actions: Vec<InstallAction> = Vec::new();
    assert(action_views(actions@) =~= Seq::<ActionView>::empty());
    match outcome {
        BundledOutcome::Done => {
            let next: BundledStep = match step {
                BundledStep::Begin => {
                    if had_ready_install {
                        BundledStep::Swap
                    } else {
                        BundledStep::Install
                    }
                },
                BundledStep::Swap => BundledStep::Install,
                BundledStep::Install => {
                    push_action(
                        &mut actions,
                        installed_progress(
                            1,
                            2,
                            "bundled-pyannote-runtime",
                            "pyannote_runtime",
                            50,
                        ),
                    );
                    push_action(
                        &mut actions,
                        installed_progress(2, 2, "bundled-pyannote-model", "pyannote_model", 100),
                    );
                    BundledStep::Validate
                },
                BundledStep::Validate => BundledStep::Probe,
                BundledStep::Probe => BundledStep::WriteStatus,
                BundledStep::WriteStatus => {
                    push_action(
                        &mut actions,
                        InstallAction::Emit(
                            plain_status(
                                "completed",
                                "Pyannote diarization runtime installed successfully.",
                            ),
                        ),
                    );
                    push_action(&mut actions, InstallAction::CleanupBackup);
                    BundledStep::Over
                },
                BundledStep::Over => BundledStep::Over,
            };
            assert(action_views(actions@) =~= bundled_success(step));
            (next, actions)
        },
        BundledOutcome::Cancelled => {
            push_action(
                &mut actions,
                InstallAction::Emit(
                    reasoned_status("cancelled", "Pyannote installation cancelled.", "cancelled"),
                ),
            );
            persist_pyannote_install_failure(
                &mut actions,
                had_ready_install,
                "cancelled",
                "Pyannote installation was cancelled before completion.",
            );
            assert(action_views(actions@) =~= bundled_cancelled(had_ready_install));
            (BundledStep::Over, actions)
        },
        BundledOutcome::Failed(error) => {
            let reason: &str = match step {
                BundledStep::Install => "pyannote_repair_required",
                BundledStep::Validate => "pyannote_repair_required",
                BundledStep::Probe => {
                    if same_text(error.as_str(), "cancelled") {
                        "cancelled"
                    } else {
                        "pyannote_import_load_failed"
                    }
                },
                _ => "pyannote_install_incomplete",
            };
            match step {
                BundledStep::Install => push_action(&mut actions, InstallAction::Rollback),
                BundledStep::Validate => push_action(&mut actions, InstallAction::Rollback),
                BundledStep::Probe => push_action(&mut actions, InstallAction::Rollback),
                _ => {},
            }
            push_action(
                &mut actions,
                InstallAction::Emit(reasoned_status("error", error.as_str(), reason)),
            );
            match step {
                BundledStep::WriteStatus => push_action(&mut actions, InstallAction::Rollback),
                _ => {},
            }
            persist_pyannote_install_failure(
                &mut actions,
                had_ready_install,
                reason,
                error.as_str(),
            );
            assert(action_views(actions@) =~= bundled_failure(step, error@, had_ready_install));
            (BundledStep::Over, actions)
        },
    }
}

/// A bundled repair that fails never touches the status of an install that worked, and puts it
/// back when it had been moved.
pub proof fn failed_bundled_repair_restores(step: BundledStep, error: Seq<char>)
    requires
        step !is Over,
    ensures
        forall|i: int|
            0 <= i < bundled_failure(step, error, true).len() ==> #[trigger] bundled_failure(
                step,
                error,
                true,
            )[i] !is WriteStatus,
        step is Install || step is Validate || step is Probe || step is WriteStatus
            ==> bundled_failure(step, error, true).contains(ActionView::Rollback),
{
    let acts = bundled_failure(step, error, true);
    if step is Install || step is Validate || step is Probe {
        assert(acts[0] == ActionView::Rollback);
    } else if step is WriteStatus {
        assert(acts[1] == ActionView::Rollback);
    }
}

/// The place of a step in an install from a release.
pub open spec fn install_rank(step: PyannoteStep) -> int {
    match step {
        PyannoteStep::PrepareStage => 0,
        PyannoteStep::SelectAssets => 1,
        PyannoteStep::CheckSpace => 2,
        PyannoteStep::Fetch(PyannoteAsset::Runtime) => 3,
        PyannoteStep::Verify(PyannoteAsset::Runtime) => 4,
        PyannoteStep::Extract(PyannoteAsset::Runtime) => 5,
        PyannoteStep::Fetch(PyannoteAsset::Model) => 6,
        PyannoteStep::Verify(PyannoteAsset::Model) => 7,
        PyannoteStep::Extract(PyannoteAsset::Model) => 8,
        PyannoteStep::WriteManifest => 9,
        PyannoteStep::Promote => 10,
        PyannoteStep::Validate => 11,
        PyannoteStep::Probe => 12,
        PyannoteStep::WriteStatus => 13,
        PyannoteStep::Over => 14,
    }
}

/// An install from a release takes every step once and in its order: no archive is extracted before it was
/// checked, and nothing is swapped in before both assets are there.
pub proof fn an_install_takes_every_step(step: PyannoteStep)
    requires
        step !is Over,
    ensures
        install_rank(following(step)) == install_rank(step) + 1,
{
}

/// A step that fails is told and recorded under one reason and with one message, which says what went
/// wrong and names the asset where one could not be fetched. The reason is that of the step.
pub proof fn a_failed_step_is_told_and_recorded(
    step: PyannoteStep,
    interrupted: bool,
    error: Seq<char>,
    had_ready_install: bool,
    names: PyannoteAssetNames,
)
    requires
        !(step is Fetch && error == "cancelled"@),
    ensures
        ({
            let acts = failed_actions(step, interrupted, error, had_ready_install, names);
            let m = failure_message(step, interrupted, error, names);
            let r = failure_reason(step, error);
            &&& acts.contains(ActionView::Emit(status("error"@, m, Some(r))))
            &&& !had_ready_install ==> acts.contains(
                ActionView::WriteStatus { reason_code: r, message: m },
            )
            &&& had_ready_install ==> acts.last() == ActionView::WriteDiagnostic {
                reason_code: trim(r),
                message: trim(m),
            }
            &&& ends_with(m, error)
            &&& step matches PyannoteStep::Fetch(a) ==> contains(m, names.name(a))
            &&& step is Verify ==> r == "pyannote_checksum_invalid"@
            &&& step is Probe && error != "cancelled"@ ==> r == "pyannote_import_load_failed"@
            &&& step is Probe && error == "cancelled"@ ==> r == "cancelled"@
            &&& step !is Verify && step !is Probe ==> r == "pyannote_install_incomplete"@
            &&& step is Fetch || step is Verify || step is Extract ==> acts[0] is RemoveArchive
        }),
{
    let acts = failed_actions(step, interrupted, error, had_ready_install, names);
    let m = failure_message(step, interrupted, error, names);
    let r = failure_reason(step, error);
    let first = leaves_archive(step).len() as int;
    assert(acts[first] == ActionView::Emit(status("error"@, m, Some(r))));
    assert(acts.last() == failure_record(had_ready_install, r, m).last());
    assert(m.skip(m.len() - error.len()) =~= error);
    if let PyannoteStep::Fetch(a) = step {
        let head = "Failed to download "@;
        lemma_contains_middle(head, names.name(a), ": "@ + error);
        assert(head + names.name(a) + (": "@ + error) =~= m);
    }
}

/// A run that was cancelled is told as that, its stage is removed, and an install that did not work before
/// is recorded as incomplete.
pub proof fn a_cancelled_install_is_told(had_ready_install: bool, names: PyannoteAssetNames)
    ensures
        ({
            let acts = cancelled_actions(had_ready_install);
            &&& acts[0] matches ActionView::Emit(s) && s.state == "cancelled"@ && s.reason_code == Some(
                "cancelled"@,
            )
            &&& acts[1] is CleanupStage
            &&& !had_ready_install ==> (acts.last() matches ActionView::WriteStatus {
                reason_code,
                message,
            } && reason_code == "pyannote_install_incomplete"@)
        }),
        forall|asset: PyannoteAsset, interrupted: bool|
            {
                let acts = #[trigger] failed_actions(
                    PyannoteStep::Fetch(asset),
                    interrupted,
                    "cancelled"@,
                    had_ready_install,
                    names,
                );
                &&& acts[0] is RemoveArchive
                &&& acts[1] matches ActionView::Emit(s) && s.state == "cancelled"@ && s.reason_code
                    == Some("cancelled"@)
                &&& acts[2] is CleanupStage
                &&& had_ready_install ==> acts.len() == 3
                &&& !had_ready_install ==> (acts.last() matches ActionView::WriteStatus {
                    reason_code,
                    message,
                } && reason_code == "pyannote_install_incomplete"@)
            },
{
}

/// After each asset its archive is removed and the share that is done is told: a half after the runtime and
/// all after the model, each under its name and kind.
pub proof fn an_install_tells_its_progress(asset: PyannoteAsset, names: PyannoteAssetNames)
    ensures
        ({
            let acts = success_actions(PyannoteStep::Extract(asset), names);
            &&& acts.len() == 2
            &&& acts[0] is RemoveArchive
            &&& acts[1] matches ActionView::Progress(p) && {
                &&& p.percentage * p.total == 100 * p.current
                &&& p.current == if asset is Runtime { 1nat } else { 2 }
                &&& p.asset == if asset is Runtime { names.runtime@ } else { names.model@ }
                &&& asset is Runtime ==> p.asset_kind == "pyannote_runtime"@
                &&& asset is Model ==> p.asset_kind == "pyannote_model"@
            }
        }),
        ({
            let acts = success_actions(PyannoteStep::WriteStatus, names);
            &&& acts[0] matches ActionView::Emit(s) && s.state == "completed"@ && s.reason_code is None
            &&& acts[1] is CleanupBackup
        }),
{
}

/// The place of a step in an install from bundled assets.
pub open spec fn bundled_rank(step: BundledStep) -> int {
    match step {
        BundledStep::Begin => 0,
        BundledStep::Swap => 1,
        BundledStep::Install => 2,
        BundledStep::Validate => 3,
        BundledStep::Probe => 4,
        BundledStep::WriteStatus => 5,
        BundledStep::Over => 6,
    }
}

/// An install from bundled assets takes every step once and in its order, but for the swap of an install
/// that was not there.
pub proof fn a_bundled_install_takes_every_step(step: BundledStep, had_ready_install: bool)
    requires
        step !is Over,
    ensures
        bundled_rank(bundled_following(step, had_ready_install)) == bundled_rank(step) + if step is Begin
            && !had_ready_install {
            2int
        } else {
            1
        },
{
}

/// A step of a bundled install that fails is told and recorded with its error and under its reason.
pub proof fn a_failed_bundled_step_is_told(
    step: BundledStep,
    error: Seq<char>,
    had_ready_install: bool,
)
    ensures
        ({
            let acts = bundled_failure(step, error, had_ready_install);
            let r = bundled_reason(step, error);
            &&& acts.contains(ActionView::Emit(status("error"@, error, Some(r))))
            &&& !had_ready_install ==> acts.contains(
                ActionView::WriteStatus { reason_code: r, message: error },
            )
            &&& step is Install || step is Validate ==> r == "pyannote_repair_required"@
            &&& step is Probe && error != "cancelled"@ ==> r == "pyannote_import_load_failed"@
            &&& step is Probe && error == "cancelled"@ ==> r == "cancelled"@
            &&& step is Begin || step is Swap || step is WriteStatus ==> r
                == "pyannote_install_incomplete"@
        }),
        ({
            let acts = bundled_cancelled(had_ready_install);
            &&& acts[0] matches ActionView::Emit(s) && s.state == "cancelled"@ && s.reason_code == Some(
                "cancelled"@,
            )
            &&& !had_ready_install ==> (acts.last() matches ActionView::WriteStatus {
                reason_code,
                message,
            } && reason_code == "cancelled"@)
        }),
{
    let acts = bundled_failure(step, error, had_ready_install);
    let r = bundled_reason(step, error);
    let told = ActionView::Emit(status("error"@, error, Some(r)));
    assert(acts[0] == told || acts[1] == told);
    assert(acts.last() == failure_record(had_ready_install, r, error).last());
}

/// A bundled install tells the runtime as a half and the model as the whole, and its success at the end.
pub proof fn a_bundled_install_tells_its_progress()
    ensures
        ({
            let acts = bundled_success(BundledStep::Install);
            &&& acts.len() == 2
            &&& acts[0] matches ActionView::Progress(p) && p.asset_kind == "pyannote_runtime"@
                && p.current == 1 && p.percentage * p.total == 100 * p.current
            &&& acts[1] matches ActionView::Progress(p) && p.asset_kind == "pyannote_model"@
                && p.current == 2 && p.percentage * p.total == 100 * p.current
        }),
        ({
            let acts = bundled_success(BundledStep::WriteStatus);
            &&& acts[0] matches ActionView::Emit(s) && s.state == "completed"@ && s.reason_code is None
            &&& acts[1] is CleanupBackup
        }),
        forall|step: BundledStep|
            step !is Install && step !is WriteStatus ==> (#[trigger] bundled_success(step)).len() == 0,
{
}

/// A bundled step that is done is told as done, and one that failed or was cancelled never as completed.
pub proof fn a_bundled_step_is_told_as_it_ended(
    step: BundledStep,
    outcome: BundledOutcome,
    had_ready_install: bool,
)
    ensures
        outcome is Done ==> bundled_actions(step, outcome, had_ready_install) == bundled_success(step),
        outcome matches BundledOutcome::Failed(e) ==> bundled_actions(
            step,
            outcome,
            had_ready_install,
        ).contains(ActionView::Emit(status("error"@, e@, Some(bundled_reason(step, e@))))),
        outcome is Cancelled ==> bundled_actions(step, outcome, had_ready_install)[0]
            == cancelled_report(),
{
    if let BundledOutcome::Failed(e) = outcome {
        a_failed_bundled_step_is_told(step, e@, had_ready_install);
    }
}

} // verus!
