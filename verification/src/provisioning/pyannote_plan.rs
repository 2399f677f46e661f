//! Which background work the diarization runtime needs.

use vstd::prelude::*;
use vstd::string::*;

use crate::domain::PyannoteRuntimeHealth;
use crate::provisioning::manifests::PyannoteAssetSelection;
use crate::text::{
    ascii_lower, ascii_lower_text, contains, same_text, text_contains, trim, trim_text, trim_trims,
};

verus! {

/// The compatibility level of the diarization assets that this version works with.
pub const PYANNOTE_COMPAT_LEVEL: u32 = 1;

/// What asks for a plan.
#[derive(Clone, Copy, PartialEq, Eq, Structural, Debug)]
pub enum PyannoteBackgroundActionTrigger {
    Startup,
    PostUpdate,
    EnableDiarization,
    JobRequiresDiarization,
}

/// The work that a plan asks for.
#[derive(Debug)]
pub struct PyannoteBackgroundActionResponse {
    pub status: String,
    pub should_start: bool,
    pub force_reinstall: bool,
    pub reason_code: String,
    pub message: String,
}

/// The content of a [`PyannoteBackgroundActionResponse`].
pub struct PyannoteAction {
    pub status: Seq<char>,
    pub should_start: bool,
    pub force_reinstall: bool,
    pub reason_code: Seq<char>,
    pub message: Seq<char>,
}

impl View for PyannoteBackgroundActionResponse {
    type V = PyannoteAction;

    open spec fn view(&self) -> PyannoteAction {
        PyannoteAction {
            status: self.status@,
            should_start: self.should_start,
            force_reinstall: self.force_reinstall,
            reason_code: self.reason_code@,
            message: self.message@,
        }
    }
}

/// What the plan after an update came to.
#[derive(Debug)]
pub struct PostUpdateReconcileResponse {
    pub status: String,
    pub migration_started: bool,
    pub message: Option<String>,
}

/// The manifest of the installed diarization assets.
#[derive(Debug)]
pub struct ManagedPyannoteManifest {
    pub source: String,
    pub app_version: String,
    pub compat_level: u32,
    pub runtime_asset: String,
    pub runtime_sha256: String,
    pub model_asset: String,
    pub model_sha256: String,
    pub runtime_arch: String,
    pub installed_at: String,
}

/// Whether a manifest records the assets of a release.
pub open spec fn records_release(
    manifest: ManagedPyannoteManifest,
    selection: PyannoteAssetSelection,
) -> bool {
    &&& manifest.source@ == "release_asset"@
    &&& manifest.app_version@ == selection.release_version@
    &&& manifest.compat_level == selection.compat_level
    &&& manifest.runtime_asset@ == selection.runtime_asset.name@
    &&& manifest.runtime_sha256@ == selection.runtime_asset.sha256@
    &&& manifest.model_asset@ == selection.model_asset.name@
    &&& manifest.model_sha256@ == selection.model_asset.sha256@
}

/// The manifest that is written beside assets that came from a release.
pub fn release_install_record(
    selection: &PyannoteAssetSelection,
    runtime_arch: &str,
    installed_at: String,
) -> (r: ManagedPyannoteManifest)
    ensures
        records_release(r, *selection),
        r.runtime_arch@ == runtime_arch@,
        r.installed_at@ == installed_at@,
{
    ManagedPyannoteManifest {
        source: "release_asset".to_owned(),
        app_version: selection.release_version.clone(),
        compat_level: selection.compat_level,
        runtime_asset: selection.runtime_asset.name.clone(),
        runtime_sha256: selection.runtime_asset.sha256.clone(),
        model_asset: selection.model_asset.name.clone(),
        model_sha256: selection.model_asset.sha256.clone(),
        runtime_arch: runtime_arch.to_owned(),
        installed_at,
    }
}

/// What comparing the installed assets with the current release gave.
#[derive(Debug)]
pub enum ReconcileManagedPyannoteReleaseOutcome {
    NoAction,
    ManifestUpdated,
    NeedsMigration { message: String },
}

/// Makes a response; the reason code is trimmed.
pub fn pyannote_background_action_response(
    status: &str,
    should_start: bool,
    force_reinstall: bool,
    reason_code: &str,
    message: &str,
) -> (r: PyannoteBackgroundActionResponse)
    ensures
        r@ == (PyannoteAction {
            status: status@,
            should_start,
            force_reinstall,
            reason_code: trim(reason_code@),
            message: message@,
        }),
{
    PyannoteBackgroundActionResponse {
        status: status.to_owned(),
        should_start,
        force_reinstall,
        reason_code: trim_text(reason_code),
        message: message.to_owned(),
    }
}

/// The compatibility level that a manifest means: an absent level, written as zero, is the
/// current one.
pub fn normalize_pyannote_compat_level(level: u32) -> (r: u32)
    ensures
        r == if level == 0 { PYANNOTE_COMPAT_LEVEL } else { level },
{
    if level == 0 {
        PYANNOTE_COMPAT_LEVEL
    } else {
        level
    }
}

/// Whether installed assets are to be compared with the release after an update: not when they
/// came with the application, and only when they belong to another version or level.
pub open spec fn reconcile_wanted(
    manifest: Option<ManagedPyannoteManifest>,
    app_version: Seq<char>,
) -> bool {
    manifest matches Some(m) && m.source@ != "bundled_override"@ && (trim(m.app_version@)
        != app_version || (m.compat_level != 0 && m.compat_level != PYANNOTE_COMPAT_LEVEL))
}

/// Decides whether installed assets are to be compared with the release after an update.
pub fn should_attempt_post_update_pyannote_reconcile(
    manifest_before: &Option<ManagedPyannoteManifest>,
    app_version: &str,
) -> (r: bool)
    ensures
        r == reconcile_wanted(*manifest_before, app_version@),
{
    match manifest_before {
        None => false,
        Some(m) => !same_text(m.source.as_str(), "bundled_override") && (!same_text(
            trim_text(m.app_version.as_str()).as_str(),
            app_version,
        ) || normalize_pyannote_compat_level(m.compat_level) != PYANNOTE_COMPAT_LEVEL),
    }
}

/// Assets of a release are compared with another one exactly when the version or the level has
/// moved on since they were installed.
pub proof fn an_install_is_compared_once_it_is_old(
    manifest: ManagedPyannoteManifest,
    selection: PyannoteAssetSelection,
    app_version: Seq<char>,
)
    requires
        records_release(manifest, selection),
    ensures
        reconcile_wanted(Some(manifest), app_version) <==> trim(selection.release_version@)
            != app_version || (selection.compat_level != 0 && selection.compat_level
            != PYANNOTE_COMPAT_LEVEL),
{
    reveal_strlit("release_asset");
    reveal_strlit("bundled_override");
    assert("release_asset"@.len() != "bundled_override"@.len());
}

/// The reason code that the message of a needed migration stands for.
pub open spec fn reconcile_reason(message: Seq<char>) -> Seq<char> {
    let text = ascii_lower(trim(message));
    if contains(text, "compatibility mismatch"@) {
        "pyannote_version_mismatch"@
    } else if contains(text, "checksum"@) {
        "pyannote_checksum_invalid"@
    } else {
        "pyannote_repair_required"@
    }
}

/// Infers the reason code from the message of a needed migration.
pub fn infer_pyannote_reconcile_reason_code(message: &str) -> (r: &'static str)
    ensures
        r@ == reconcile_reason(message@),
{
    let normalized: String = ascii_lower_text(trim_text(message).as_str());
    if text_contains(normalized.as_str(), "compatibility mismatch") {
        "pyannote_version_mismatch"
    } else if text_contains(normalized.as_str(), "checksum") {
        "pyannote_checksum_invalid"
    } else {
        "pyannote_repair_required"
    }
}

/// The work that the comparison with the release asks for, if any.
pub open spec fn reconcile_plan(outcome: ReconcileManagedPyannoteReleaseOutcome) -> Option<
    PyannoteAction,
> {
    match outcome {
        ReconcileManagedPyannoteReleaseOutcome::NoAction => None,
        ReconcileManagedPyannoteReleaseOutcome::ManifestUpdated => Some(
            PyannoteAction {
                status: "migrate_manifest"@,
                should_start: false,
                force_reinstall: false,
                reason_code: trim("pyannote_manifest_migrated"@),
                message: "Pyannote metadata was updated for this app version."@,
            },
        ),
        ReconcileManagedPyannoteReleaseOutcome::NeedsMigration { message } => Some(
            PyannoteAction {
                status: "migrate_assets"@,
                should_start: true,
                force_reinstall: true,
                reason_code: trim(reconcile_reason(message@)),
                message: message@,
            },
        ),
    }
}

/// Turns the outcome of the comparison with the release into work.
pub fn pyannote_reconcile_action(outcome: &ReconcileManagedPyannoteReleaseOutcome) -> (r: Option<
    PyannoteBackgroundActionResponse,
>)
    ensures
        r is Some == reconcile_plan(*outcome) is Some,
        r is Some ==> r->0@ == reconcile_plan(*outcome)->0,
{
    match outcome {
        ReconcileManagedPyannoteReleaseOutcome::NoAction => None,
        ReconcileManagedPyannoteReleaseOutcome::ManifestUpdated => Some(
            pyannote_background_action_response(
                "migrate_manifest",
                false,
                false,
                "pyannote_manifest_migrated",
                "Pyannote metadata was updated for this app version.",
            ),
        ),
        ReconcileManagedPyannoteReleaseOutcome::NeedsMigration { message } => Some(
            pyannote_background_action_response(
                "migrate_assets",
                true,
                true,
                infer_pyannote_reconcile_reason_code(message.as_str()),
                message.as_str(),
            ),
        ),
    }
}

/// The reason codes that a repair answers.
pub open spec fn repair_reason(reason_code: Seq<char>) -> bool {
    ||| reason_code == "pyannote_repair_required"@
    ||| reason_code == "pyannote_install_incomplete"@
    ||| reason_code == "pyannote_checksum_invalid"@
    ||| reason_code == "pyannote_version_mismatch"@
    ||| reason_code == "pyannote_arch_mismatch"@
    ||| reason_code == "pyannote_import_load_failed"@
}

/// Whether a repair answers a reason code.
pub fn is_pyannote_repair_reason(reason_code: &str) -> (r: bool)
    ensures
        r == repair_reason(trim(reason_code@)),
{
    let reason: String = trim_text(reason_code);
    same_text(reason.as_str(), "pyannote_repair_required") || same_text(
        reason.as_str(),
        "pyannote_install_incomplete",
    ) || same_text(reason.as_str(), "pyannote_checksum_invalid") || same_text(
        reason.as_str(),
        "pyannote_version_mismatch",
    ) || same_text(reason.as_str(), "pyannote_arch_mismatch") || same_text(
        reason.as_str(),
        "pyannote_import_load_failed",
    )
}

/// The reason codes of assets that are not there.
pub open spec fn missing_reason(reason_code: Seq<char>) -> bool {
    reason_code == "pyannote_runtime_missing"@ || reason_code == "pyannote_model_missing"@
}

fn is_missing_reason(reason_code: &str) -> (r: bool)
    ensures
        r == missing_reason(reason_code@),
{
    same_text(reason_code, "pyannote_runtime_missing") || same_text(
        reason_code,
        "pyannote_model_missing",
    )
}

/// The reason codes of assets that belong to another release.
pub open spec fn migration_reason(reason_code: Seq<char>) -> bool {
    reason_code == "pyannote_version_mismatch"@ || reason_code == "pyannote_checksum_invalid"@
}

fn is_migration_reason(reason_code: &str) -> (r: bool)
    ensures
        r == migration_reason(reason_code@),
{
    same_text(reason_code, "pyannote_version_mismatch") || same_text(
        reason_code,
        "pyannote_checksum_invalid",
    )
}

/// The first step of a plan.
pub enum PyannotePlanStep {
    /// There is nothing to find out.
    Answer(PyannoteBackgroundActionResponse),
    /// Compare the installed assets with the release, then ask [`plan_after_reconcile`].
    Reconcile,
    /// Inspect the runtime's health, then ask [`plan_pyannote_background_action_inner`].
    InspectHealth,
}

/// What is answered to every trigger but an update.
pub open spec fn auto_check_disabled() -> PyannoteAction {
    PyannoteAction {
        status: "none"@,
        should_start: false,
        force_reinstall: false,
        reason_code: trim("pyannote_auto_check_disabled"@),
        message: "Pyannote is validated only during installation, repair, and app updates."@,
    }
}

/// Takes the first step of a plan: only an update leads to any work.
pub fn plan_pyannote_background_action(
    trigger: PyannoteBackgroundActionTrigger,
    manifest_before: &Option<ManagedPyannoteManifest>,
    app_version: &str,
) -> (r: PyannotePlanStep)
    ensures
        r is Answer <==> trigger != PyannoteBackgroundActionTrigger::PostUpdate,
        r matches PyannotePlanStep::Answer(a) ==> a@ == auto_check_disabled(),
        r matches PyannotePlanStep::Answer(a) ==> !a.should_start && !a.force_reinstall && a.status@
            == "none"@,
        r is Reconcile <==> trigger == PyannoteBackgroundActionTrigger::PostUpdate
            && reconcile_wanted(*manifest_before, app_version@),
{
    if trigger != PyannoteBackgroundActionTrigger::PostUpdate {
        return PyannotePlanStep::Answer(
            pyannote_background_action_response(
                "none",
                false,
                false,
                "pyannote_auto_check_disabled",
                "Pyannote is validated only during installation, repair, and app updates.",
            ),
        );
    }
    if should_attempt_post_update_pyannote_reconcile(manifest_before, app_version) {
        PyannotePlanStep::Reconcile
    } else {
        PyannotePlanStep::InspectHealth
    }
}

/// Takes the step after a comparison with the release. `None` stands for a release that could
/// not be fetched, which is passed over.
pub fn plan_after_reconcile(outcome: &Option<ReconcileManagedPyannoteReleaseOutcome>) -> (r:
    PyannotePlanStep)
    ensures
        r !is Reconcile,
        r is Answer <==> (outcome matches Some(o) && reconcile_plan(*o) is Some),
        r matches PyannotePlanStep::Answer(a) ==> a@ == reconcile_plan(outcome->0)->0,
{
    match outcome {
        None => PyannotePlanStep::InspectHealth,
        Some(found) => match pyannote_reconcile_action(found) {
            Some(action) => PyannotePlanStep::Answer(action),
            None => PyannotePlanStep::InspectHealth,
        },
    }
}

/// The work that the health of the diarization runtime asks for. `existing` says whether
/// anything was installed or recorded before.
pub open spec fn health_plan(health: PyannoteRuntimeHealth, existing: bool) -> PyannoteAction {
    let reason = trim(health.reason_code@);
    let known = existing || health.runtime_installed || health.model_installed;
    if health.ready {
        PyannoteAction {
            status: "none"@,
            should_start: false,
            force_reinstall: false,
            reason_code: trim("ok"@),
            message: "Pyannote diarization runtime is ready."@,
        }
    } else if known && migration_reason(reason) {
        PyannoteAction {
            status: "migrate_assets"@,
            should_start: true,
            force_reinstall: true,
            reason_code: trim(reason),
            message: health.message@,
        }
    } else if (known && missing_reason(reason)) || ((known || health.enabled) && repair_reason(
        trim(reason),
    )) {
        PyannoteAction {
            status: "repair_existing"@,
            should_start: true,
            force_reinstall: true,
            reason_code: trim(reason),
            message: health.message@,
        }
    } else if health.enabled && (reason.len() == 0 || missing_reason(reason)) {
        PyannoteAction {
            status: "install_missing"@,
            should_start: true,
            force_reinstall: false,
            reason_code: trim(
                if reason.len() == 0 { "pyannote_runtime_missing"@ } else { reason },
            ),
            message: if trim(health.message@).len() == 0 {
                "Pyannote diarization runtime is not installed yet."@
            } else {
                health.message@
            },
        }
    } else {
        PyannoteAction {
            status: "none"@,
            should_start: false,
            force_reinstall: false,
            reason_code: trim(if health.enabled { reason } else { "pyannote_disabled"@ }),
            message: if health.enabled {
                health.message@
            } else {
                "Speaker diarization is disabled, so pyannote does not need background work right now."@
            },
        }
    }
}

/// Turns the health of the diarization runtime into work.
pub fn plan_pyannote_background_action_inner(
    health: &PyannoteRuntimeHealth,
    has_manifest: bool,
    has_status: bool,
) -> (r: PyannoteBackgroundActionResponse)
    ensures
        r@ == health_plan(*health, has_manifest || has_status),
{
    if health.ready {
        return pyannote_background_action_response(
            "none",
            false,
            false,
            "ok",
            "Pyannote diarization runtime is ready.",
        );
    }
    let reason: String = trim_text(health.reason_code.as_str());
    let existing: bool = health.runtime_installed || health.model_installed || has_manifest
        || has_status;
    proof {
        lemma_reasons_not_empty();
        lemma_reasons_apart(reason@);
        trim_trims(health.reason_code@);
        if reason@.len() == 0 {
            assert(reason@ =~= Seq::<char>::empty());
        }
    }
    if existing {
        if is_migration_reason(reason.as_str()) {
            return pyannote_background_action_response(
                "migrate_assets",
                true,
                true,
                reason.as_str(),
                health.message.as_str(),
            );
        }
        if is_pyannote_repair_reason(reason.as_str()) || is_missing_reason(reason.as_str()) {
            return pyannote_background_action_response(
                "repair_existing",
                true,
                true,
                if reason.as_str().is_empty() {
                    "pyannote_repair_required"
                } else {
                    reason.as_str()
                },
                health.message.as_str(),
            );
        }
    }
    if health.enabled && (reason.as_str().is_empty() || is_missing_reason(reason.as_str())) {
        let blank: bool = trim_text(health.message.as_str()).as_str().is_empty();
        return pyannote_background_action_response(
            "install_missing",
            true,
            false,
            if reason.as_str().is_empty() {
                "pyannote_runtime_missing"
            } else {
                reason.as_str()
            },
            if blank {
                "Pyannote diarization runtime is not installed yet."
            } else {
                health.message.as_str()
            },
        );
    }
    if health.enabled && is_pyannote_repair_reason(reason.as_str()) {
        return pyannote_background_action_response(
            "repair_existing",
            true,
            true,
            reason.as_str(),
            health.message.as_str(),
        );
    }
    pyannote_background_action_response(
        "none",
        false,
        false,
        if health.enabled {
            reason.as_str()
        } else {
            "pyannote_disabled"
        },
        if health.enabled {
            health.message.as_str()
        } else {
            "Speaker diarization is disabled, so pyannote does not need background work right now."
        },
    )
}

/// No reason code that asks for work is empty.
proof fn lemma_reasons_not_empty()
    ensures
        !repair_reason(Seq::<char>::empty()),
        !missing_reason(Seq::<char>::empty()),
{
    reveal_strlit("pyannote_repair_required");
    reveal_strlit("pyannote_install_incomplete");
    reveal_strlit("pyannote_checksum_invalid");
    reveal_strlit("pyannote_version_mismatch");
    reveal_strlit("pyannote_arch_mismatch");
    reveal_strlit("pyannote_import_load_failed");
    reveal_strlit("pyannote_runtime_missing");
    reveal_strlit("pyannote_model_missing");
    let none = Seq::<char>::empty();
    assert(none.len() == 0);
    assert("pyannote_repair_required"@.len() > 0);
    assert("pyannote_install_incomplete"@.len() > 0);
    assert("pyannote_checksum_invalid"@.len() > 0);
    assert("pyannote_version_mismatch"@.len() > 0);
    assert("pyannote_arch_mismatch"@.len() > 0);
    assert("pyannote_import_load_failed"@.len() > 0);
    assert("pyannote_runtime_missing"@.len() > 0);
    assert("pyannote_model_missing"@.len() > 0);
}

/// A code does not ask both for a repair and for missing assets.
proof fn lemma_reasons_apart(reason: Seq<char>)
    ensures
        !(repair_reason(reason) && missing_reason(reason)),
{
    reveal_strlit("pyannote_repair_required");
    reveal_strlit("pyannote_install_incomplete");
    reveal_strlit("pyannote_checksum_invalid");
    reveal_strlit("pyannote_version_mismatch");
    reveal_strlit("pyannote_arch_mismatch");
    reveal_strlit("pyannote_import_load_failed");
    reveal_strlit("pyannote_runtime_missing");
    reveal_strlit("pyannote_model_missing");
    if repair_reason(reason) && missing_reason(reason) {
        assert(reason[9] == 'r' || reason[9] == 'i' || reason[9] == 'c' || reason[9] == 'v'
            || reason[9] == 'a');
        assert(reason.len() == 24 ==> reason[11] == 'n' || reason[11] == 'p');
        assert("pyannote_runtime_missing"@[11] == 'n');
        assert("pyannote_repair_required"@[11] == 'p');
    }
}

/// How the plan after an update is reported: the work it started on metadata alone is done, work
/// on assets is still to be started.
pub open spec fn reconcile_status(action_status: Seq<char>) -> Seq<char> {
    if action_status == "migrate_manifest"@ {
        "ok_migrated_manifest"@
    } else if action_status == "install_missing"@ || action_status == "repair_existing"@
        || action_status == "migrate_assets"@ {
        "needs_auto_migration"@
    } else {
        "ok_no_action"@
    }
}

/// Reports the plan that was made after an update.
pub fn reconcile_post_update_runtime(action: &PyannoteBackgroundActionResponse) -> (r:
    PostUpdateReconcileResponse)
    ensures
        r.status@ == reconcile_status(action.status@),
        !r.migration_started,
        r.message is None <==> r.status@ == "ok_no_action"@,
        r.message is Some ==> r.message->0@ == action.message@,
{
    proof {
        reveal_strlit("ok_migrated_manifest");
        reveal_strlit("needs_auto_migration");
        reveal_strlit("ok_no_action");
        assert("ok_migrated_manifest"@.len() != "ok_no_action"@.len());
        assert("needs_auto_migration"@.len() != "ok_no_action"@.len());
    }
    if same_text(action.status.as_str(), "migrate_manifest") {
        PostUpdateReconcileResponse {
            status: "ok_migrated_manifest".to_owned(),
            migration_started: false,
            message: Some(action.message.clone()),
        }
    } else if same_text(action.status.as_str(), "install_missing") || same_text(
        action.status.as_str(),
        "repair_existing",
    ) || same_text(action.status.as_str(), "migrate_assets") {
        PostUpdateReconcileResponse {
            status: "needs_auto_migration".to_owned(),
            migration_started: false,
            message: Some(action.message.clone()),
        }
    } else {
        PostUpdateReconcileResponse {
            status: "ok_no_action".to_owned(),
            migration_started: false,
            message: None,
        }
    }
}

/// A runtime that is ready is left alone, a reinstall is forced only where work starts, and work
/// on the assets is reported after an update exactly when the plan starts some.
pub proof fn plans_are_consistent(health: PyannoteRuntimeHealth, existing: bool)
    ensures
        health.ready ==> !health_plan(health, existing).should_start,
        health_plan(health, existing).force_reinstall ==> health_plan(
            health,
            existing,
        ).should_start,
        reconcile_status(health_plan(health, existing).status) == "needs_auto_migration"@
            <==> health_plan(health, existing).should_start,
{
    reveal_strlit("none");
    reveal_strlit("migrate_manifest");
    reveal_strlit("migrate_assets");
    reveal_strlit("install_missing");
    reveal_strlit("repair_existing");
    reveal_strlit("ok_migrated_manifest");
    reveal_strlit("needs_auto_migration");
    reveal_strlit("ok_no_action");
    assert("none"@.len() != "install_missing"@.len());
    assert("none"@.len() != "repair_existing"@.len());
    assert("none"@.len() != "migrate_assets"@.len());
    assert("none"@.len() != "migrate_manifest"@.len());
    assert("migrate_assets"@.len() != "migrate_manifest"@.len());
    assert("install_missing"@.len() != "migrate_manifest"@.len());
    assert("repair_existing"@.len() != "migrate_manifest"@.len());
    assert("ok_no_action"@.len() != "needs_auto_migration"@.len());
    assert("ok_migrated_manifest"@[0] == 'o');
    assert("needs_auto_migration"@[0] == 'n');
}

/// While speaker diarization is off and nothing of it was ever installed, no work is planned.
pub proof fn no_work_when_disabled(health: PyannoteRuntimeHealth)
    requires
        !health.enabled,
        !health.runtime_installed,
        !health.model_installed,
    ensures
        !health_plan(health, false).should_start,
{
}

/// Work is planned for what is wrong: assets that are missing are installed where nothing was, and
/// replaced where something was; assets of another release are migrated; and the reason and the message
/// are those of the health.
pub proof fn work_is_planned_for_what_is_wrong(health: PyannoteRuntimeHealth, existing: bool)
    requires
        !health.ready,
        trim(health.reason_code@) == health.reason_code@,
    ensures
        ({
            let plan = health_plan(health, existing);
            let reason = health.reason_code@;
            let known = existing || health.runtime_installed || health.model_installed;
            let missing = reason == "pyannote_runtime_missing"@ || reason == "pyannote_model_missing"@;
            let moved = reason == "pyannote_version_mismatch"@ || reason
                == "pyannote_checksum_invalid"@;
            let broken = reason == "pyannote_repair_required"@ || reason
                == "pyannote_install_incomplete"@ || reason == "pyannote_arch_mismatch"@ || reason
                == "pyannote_import_load_failed"@;
            &&& known && (missing || moved || broken) ==> plan.should_start && plan.force_reinstall
            &&& known && moved ==> plan.status == "migrate_assets"@
            &&& known && (missing || broken) ==> plan.status == "repair_existing"@
            &&& !known && health.enabled && missing ==> plan.should_start && !plan.force_reinstall
                && plan.status == "install_missing"@
            &&& !known && health.enabled && (moved || broken) ==> plan.should_start
                && plan.force_reinstall && plan.status == "repair_existing"@
            &&& !known && !health.enabled ==> !plan.should_start && plan.reason_code == trim(
                "pyannote_disabled"@,
            )
            &&& reason.len() > 0 && !missing && !moved && !broken ==> !plan.should_start
            &&& plan.should_start && reason.len() > 0 ==> plan.reason_code == reason
            &&& plan.should_start && trim(health.message@).len() > 0 ==> plan.message
                == health.message@
        }),
{
    let reason = health.reason_code@;
    lemma_reasons_apart(reason);
    lemma_reasons_not_empty();
    if reason.len() == 0 {
        assert(reason =~= Seq::<char>::empty());
    }
    reveal_strlit("pyannote_repair_required");
    reveal_strlit("pyannote_install_incomplete");
    reveal_strlit("pyannote_checksum_invalid");
    reveal_strlit("pyannote_version_mismatch");
    reveal_strlit("pyannote_arch_mismatch");
    reveal_strlit("pyannote_import_load_failed");
    assert("pyannote_version_mismatch"@[9] == 'v');
    assert("pyannote_checksum_invalid"@[9] == 'c');
    assert("pyannote_repair_required"@[9] == 'r');
    assert("pyannote_install_incomplete"@[9] == 'i');
    assert("pyannote_arch_mismatch"@[9] == 'a');
    assert("pyannote_import_load_failed"@[9] == 'i');
}

/// The reason of a migration is read off its message, whatever the case: a mismatch goes before a digest,
/// and anything else asks for a repair.
pub proof fn a_reason_is_read_off_the_message(message: Seq<char>)
    ensures
        contains(ascii_lower(message), "compatibility mismatch"@) && trim(message) == message
            ==> reconcile_reason(message) == "pyannote_version_mismatch"@,
        !contains(ascii_lower(message), "compatibility mismatch"@) && contains(
            ascii_lower(message),
            "checksum"@,
        ) && trim(message) == message ==> reconcile_reason(message) == "pyannote_checksum_invalid"@,
        repair_reason(reconcile_reason(message)),
{
}

/// A needed migration replaces the assets and says why; an update of the metadata starts nothing; and
/// where nothing is to be done, nothing is planned.
pub proof fn a_migration_replaces_the_assets(outcome: ReconcileManagedPyannoteReleaseOutcome)
    ensures
        reconcile_plan(outcome) is None <==> outcome is NoAction,
        outcome is ManifestUpdated ==> !reconcile_plan(outcome)->0.should_start && reconcile_status(
            reconcile_plan(outcome)->0.status,
        ) == "ok_migrated_manifest"@,
        outcome matches ReconcileManagedPyannoteReleaseOutcome::NeedsMigration { message } ==> {
            let plan = reconcile_plan(outcome)->0;
            &&& plan.should_start
            &&& plan.force_reinstall
            &&& plan.message == message@
            &&& reconcile_status(plan.status) == "needs_auto_migration"@
        },
{
    reveal_strlit("migrate_manifest");
    reveal_strlit("migrate_assets");
    assert("migrate_assets"@.len() != "migrate_manifest"@.len());
}

} // verus!
