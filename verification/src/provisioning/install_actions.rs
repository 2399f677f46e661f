//! What the install procedures do between their steps.

use vstd::prelude::*;
use vstd::string::*;

use crate::provisioning::batch::{ProvisioningProgressEvent, ProvisioningStatusEvent, StatusView};
use crate::text::{trim, trim_text};

verus! {

/// An action that an install procedure asks for. A failure of a cleanup or of a rollback is only
/// logged.
pub enum InstallAction {
    /// Report a status.
    Emit(ProvisioningStatusEvent),
    /// Report progress.
    Progress(ProvisioningProgressEvent),
    /// Remove the downloaded archive.
    RemoveArchive,
    /// Remove the staging directory.
    CleanupStage,
    /// Put the previous install back.
    Rollback,
    /// Remove the backup of the previous install.
    CleanupBackup,
    /// Record a failed repair beside the install, which stays as it is.
    WriteDiagnostic { reason_code: String, message: String },
    /// Remove what an incomplete install left.
    CleanWorkdir,
    /// Write the install's status.
    WriteStatus { reason_code: String, message: String },
}

/// The content of a [`ProvisioningProgressEvent`].
pub struct ProgressView {
    pub current: nat,
    pub total: nat,
    pub asset: Seq<char>,
    pub asset_kind: Seq<char>,
    pub stage: Seq<char>,
    pub percentage: nat,
}

impl View for ProvisioningProgressEvent {
    type V = ProgressView;

    open spec fn view(&self) -> ProgressView {
        ProgressView {
            current: self.current as nat,
            total: self.total as nat,
            asset: self.asset@,
            asset_kind: self.asset_kind@,
            stage: self.stage@,
            percentage: self.percentage as nat,
        }
    }
}

/// The content of an [`InstallAction`].
pub enum ActionView {
    Emit(StatusView),
    Progress(ProgressView),
    RemoveArchive,
    CleanupStage,
    Rollback,
    CleanupBackup,
    WriteDiagnostic { reason_code: Seq<char>, message: Seq<char> },
    CleanWorkdir,
    WriteStatus { reason_code: Seq<char>, message: Seq<char> },
}

impl View for InstallAction {
    type V = ActionView;

    open spec fn view(&self) -> ActionView {
        match self {
            InstallAction::Emit(s) => ActionView::Emit(s@),
            InstallAction::Progress(p) => ActionView::Progress(p@),
            InstallAction::RemoveArchive => ActionView::RemoveArchive,
            InstallAction::CleanupStage => ActionView::CleanupStage,
            InstallAction::Rollback => ActionView::Rollback,
            InstallAction::CleanupBackup => ActionView::CleanupBackup,
            InstallAction::WriteDiagnostic { reason_code, message } => ActionView::WriteDiagnostic {
                reason_code: reason_code@,
                message: message@,
            },
            InstallAction::CleanWorkdir => ActionView::CleanWorkdir,
            InstallAction::WriteStatus { reason_code, message } => ActionView::WriteStatus {
                reason_code: reason_code@,
                message: message@,
            },
        }
    }
}

/// The contents of a list of actions.
pub open spec fn action_views(v: Seq<InstallAction>) -> Seq<ActionView> {
    v.map_values(|a: InstallAction| a@)
}

/// Adds an action to a list.
pub fn push_action(actions: &mut Vec<InstallAction>, action: InstallAction)
    ensures
        action_views(final(actions)@) == action_views(old(actions)@).push(action@),
{
    actions.push(action);
    assert(action_views(actions@) =~= action_views(old(actions)@).push(action@));
}

/// The actions that record a failed install. A repair that fails leaves a working install and
/// its status alone.
pub open spec fn failure_record(
    had_ready_install: bool,
    reason_code: Seq<char>,
    message: Seq<char>,
) -> Seq<ActionView> {
    if had_ready_install {
        seq![
            ActionView::WriteDiagnostic {
                reason_code: trim(reason_code),
                message: trim(message),
            },
        ]
    } else {
        seq![ActionView::CleanWorkdir, ActionView::WriteStatus { reason_code, message }]
    }
}

/// Adds the actions that record a failed install.
pub fn persist_pyannote_install_failure(
    actions: &mut Vec<InstallAction>,
    had_ready_install: bool,
    reason_code: &str,
    message: &str,
)
    ensures
        action_views(final(actions)@) == action_views(old(actions)@) + failure_record(
            had_ready_install,
            reason_code@,
            message@,
        ),
{
    let ghost before = action_views(actions@);
    if had_ready_install {
        push_action(
            actions,
            InstallAction::WriteDiagnostic {
                reason_code: trim_text(reason_code),
                message: trim_text(message),
            },
        );
    } else {
        push_action(actions, InstallAction::CleanWorkdir);
        push_action(
            actions,
            InstallAction::WriteStatus {
                reason_code: reason_code.to_owned(),
                message: message.to_owned(),
            },
        );
    }
    assert(action_views(actions@) =~= before + failure_record(
        had_ready_install,
        reason_code@,
        message@,
    ));
}

/// Makes the progress of an install with `total` assets.
pub fn installed_progress(
    current: usize,
    total: usize,
    asset: &str,
    asset_kind: &str,
    percentage: u8,
) -> (r: InstallAction)
    ensures
        r@ == ActionView::Progress(
            ProgressView {
                current: current as nat,
                total: total as nat,
                asset: asset@,
                asset_kind: asset_kind@,
                stage: "installed"@,
                percentage: percentage as nat,
            },
        ),
{
    InstallAction::Progress(
        ProvisioningProgressEvent {
            current,
            total,
            asset: asset.to_owned(),
            asset_kind: asset_kind.to_owned(),
            stage: "installed".to_owned(),
            percentage,
        },
    )
}

/// How a step of an install ended.
pub enum StepOutcome {
    Done,
    /// The run was cancelled before the step.
    Cancelled,
    /// The step failed. The error `cancelled` stands for a run that was cancelled during it.
    Failed(String),
    /// The step's task did not end regularly.
    Interrupted(String),
}

/// A repair that fails is recorded beside the install and nothing else is done; an install that fails is
/// cleaned up and its status says why.
pub proof fn a_failure_is_recorded(
    had_ready_install: bool,
    reason_code: Seq<char>,
    message: Seq<char>,
)
    ensures
        had_ready_install ==> failure_record(had_ready_install, reason_code, message) == seq![
            ActionView::WriteDiagnostic { reason_code: trim(reason_code), message: trim(message) },
        ],
        !had_ready_install ==> {
            let r = failure_record(had_ready_install, reason_code, message);
            &&& r.len() == 2
            &&& r[0] is CleanWorkdir
            &&& r[1] == ActionView::WriteStatus { reason_code, message }
        },
{
}

} // verus!
