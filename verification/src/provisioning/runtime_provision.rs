//! The procedure that downloads, installs and validates the managed runtime.

use vstd::prelude::*;
use vstd::string::*;

use crate::domain::{ManagedRuntimeBinaryHealth, ManagedRuntimeHealth};
use crate::provisioning::batch::{plain_status, reasoned_status, status};
use crate::provisioning::install_actions::{
    action_views, installed_progress, push_action, ActionView, InstallAction, ProgressView,
    StepOutcome,
};
use crate::provisioning::runtime_install::RuntimeInstallCommitError;
use crate::text::{
    cat3, cat4, cat5, contains, ends_with, lemma_contains_middle, same_text, starts_with, trim,
    trim_text,
};

verus! {

/// The first binary that cannot be used, with the name it is shown under.
pub open spec fn failing_tool(h: ManagedRuntimeHealth) -> Option<
    (Seq<char>, ManagedRuntimeBinaryHealth),
> {
    if !h.ffmpeg.available {
        Some(("FFmpeg"@, h.ffmpeg))
    } else if !h.whisper_cli.available {
        Some(("Whisper CLI"@, h.whisper_cli))
    } else if !h.whisper_stream.available {
        Some(("Whisper Stream"@, h.whisper_stream))
    } else if !h.parakeet_cli.available {
        Some(("Parakeet CLI"@, h.parakeet_cli))
    } else {
        None
    }
}

/// The message for a runtime that was installed but cannot be used.
pub open spec fn install_error_text(h: ManagedRuntimeHealth) -> Seq<char> {
    match failing_tool(h) {
        Some((label, tool)) => label + " could not be verified at '"@ + tool.resolved_path@ + "': "@
            + (if trim(tool.failure_message@).len() == 0 {
            "Managed runtime verification failed."@
        } else {
            trim(tool.failure_message@)
        }),
        None => "Local runtime was installed but is still not runnable."@,
    }
}

fn tool_error(label: &str, tool: &ManagedRuntimeBinaryHealth) -> (r: String)
    ensures
        r@ == label@ + " could not be verified at '"@ + tool.resolved_path@ + "': "@ + (if trim(
            tool.failure_message@,
        ).len() == 0 {
            "Managed runtime verification failed."@
        } else {
            trim(tool.failure_message@)
        }),
{
    let detail: String = trim_text(tool.failure_message.as_str());
    if detail.as_str().is_empty() {
        cat5(
            label,
            " could not be verified at '",
            tool.resolved_path.as_str(),
            "': ",
            "Managed runtime verification failed.",
        )
    } else {
        cat5(
            label,
            " could not be verified at '",
            tool.resolved_path.as_str(),
            "': ",
            detail.as_str(),
        )
    }
}

/// Words the message for a runtime that was installed but cannot be used.
pub fn format_managed_runtime_install_error(health: &ManagedRuntimeHealth) -> (r: String)
    ensures
        r@ == install_error_text(*health),
{
    if !health.ffmpeg.available {
        tool_error("FFmpeg", &health.ffmpeg)
    } else if !health.whisper_cli.available {
        tool_error("Whisper CLI", &health.whisper_cli)
    } else if !health.whisper_stream.available {
        tool_error("Whisper Stream", &health.whisper_stream)
    } else if !health.parakeet_cli.available {
        tool_error("Parakeet CLI", &health.parakeet_cli)
    } else {
        "Local runtime was installed but is still not runnable.".to_owned()
    }
}

/// How the rollback after a commit ended.
pub enum RollbackOutcome {
    Restored,
    Failed(String),
    Interrupted(String),
}

/// The message for a commit that did not finish. The previous runtime is said to be restored only
/// when its rollback succeeded.
pub open spec fn commit_error_text(
    error: RuntimeInstallCommitError,
    rollback: RollbackOutcome,
) -> Seq<char> {
    match error {
        RuntimeInstallCommitError::BeforeValidationMarker(e) => {
            let head = "Failed to finalize the local transcription runtime: "@ + e@;
            match rollback {
                RollbackOutcome::Restored => head + ". Previous runtime restored."@,
                RollbackOutcome::Failed(why) => head + ". Automatic rollback failed: "@ + why@
                    + ". Repair the runtime from Settings > Local Models."@,
                RollbackOutcome::Interrupted(why) => head + ". Automatic rollback task failed: "@
                    + why@ + ". Repair the runtime from Settings > Local Models."@,
            }
        },
        RuntimeInstallCommitError::AfterValidationMarker(e) =>
            "The local transcription runtime was validated, but cleanup is incomplete: "@ + e@
            + ". The validated runtime remains active; the install journal is retained for safe cleanup. Repair the runtime from Settings > Local Models."@,
    }
}

/// Whether a commit that did not finish is rolled back: only before the validation marker.
pub fn commit_needs_rollback(error: &RuntimeInstallCommitError) -> (r: bool)
    ensures
        r == (error is BeforeValidationMarker),
{
    match error {
        RuntimeInstallCommitError::BeforeValidationMarker(_) => true,
        RuntimeInstallCommitError::AfterValidationMarker(_) => false,
    }
}

/// Words the message for a commit that did not finish.
pub fn runtime_commit_error(error: &RuntimeInstallCommitError, rollback: &RollbackOutcome) -> (r:
    String)
    ensures
        r@ == commit_error_text(*error, *rollback),
{
    match error {
        RuntimeInstallCommitError::BeforeValidationMarker(e) => {
            let mut text: String = "Failed to finalize the local transcription runtime: ".to_owned();
            text.append(e.as_str());
            match rollback {
                RollbackOutcome::Restored => {
                    text.append(". Previous runtime restored.");
                },
                RollbackOutcome::Failed(why) => {
                    text.append(". Automatic rollback failed: ");
                    text.append(why.as_str());
                    text.append(". Repair the runtime from Settings > Local Models.");
                },
                RollbackOutcome::Interrupted(why) => {
                    text.append(". Automatic rollback task failed: ");
                    text.append(why.as_str());
                    text.append(". Repair the runtime from Settings > Local Models.");
                },
            }
            text
        },
        RuntimeInstallCommitError::AfterValidationMarker(e) => cat3(
            "The local transcription runtime was validated, but cleanup is incomplete: ",
            e.as_str(),
            ". The validated runtime remains active; the install journal is retained for safe cleanup. Repair the runtime from Settings > Local Models.",
        ),
    }
}

/// The steps of the procedure, in order.
#[derive(Clone, Copy, PartialEq, Eq, Structural, Debug)]
pub enum RuntimeStep {
    /// Choose the asset of the release.
    SelectAsset,
    /// Make the directory that the archive is downloaded to.
    CreateDir,
    /// Fetch the archive.
    Fetch,
    /// Check the archive's digest.
    Verify,
    /// Publish the archive's content as a transaction.
    Install,
    /// Validate the published binaries. A failure carries the message for it.
    Validate,
    /// Commit the transaction. A failure carries the message for it, after its rollback.
    Commit,
    /// The procedure is over.
    Over,
}

/// The step that follows a step that succeeded.
pub open spec fn runtime_following(step: RuntimeStep) -> RuntimeStep {
    match step {
        RuntimeStep::SelectAsset => RuntimeStep::CreateDir,
        RuntimeStep::CreateDir => RuntimeStep::Fetch,
        RuntimeStep::Fetch => RuntimeStep::Verify,
        RuntimeStep::Verify => RuntimeStep::Install,
        RuntimeStep::Install => RuntimeStep::Validate,
        RuntimeStep::Validate => RuntimeStep::Commit,
        RuntimeStep::Commit => RuntimeStep::Over,
        RuntimeStep::Over => RuntimeStep::Over,
    }
}

/// The actions after a step that succeeded.
pub open spec fn runtime_success(step: RuntimeStep, asset: Seq<char>) -> Seq<ActionView> {
    match step {
        RuntimeStep::Install => seq![ActionView::RemoveArchive],
        RuntimeStep::Commit => seq![
            ActionView::Progress(
                ProgressView {
                    current: 1,
                    total: 1,
                    asset,
                    asset_kind: "speech_runtime"@,
                    stage: "installed"@,
                    percentage: 100,
                },
            ),
            ActionView::Emit(
                status(
                    "completed"@,
                    "Local transcription runtime installed successfully."@,
                    None,
                ),
            ),
        ],
        _ => Seq::empty(),
    }
}

/// The actions after a step that failed.
pub open spec fn runtime_failure(
    step: RuntimeStep,
    interrupted: bool,
    error: Seq<char>,
    asset: Seq<char>,
) -> Seq<ActionView> {
    let incomplete = |message: Seq<char>|
        ActionView::Emit(status("error"@, message, Some("runtime_install_incomplete"@)));
    match step {
        RuntimeStep::CreateDir => seq![
            incomplete("Failed to create runtime directory: "@ + error),
        ],
        RuntimeStep::Fetch => if error == "cancelled"@ {
            seq![
                ActionView::RemoveArchive,
                ActionView::Emit(
                    status(
                        "cancelled"@,
                        "Local runtime installation cancelled."@,
                        Some("cancelled"@),
                    ),
                ),
            ]
        } else {
            seq![
                ActionView::RemoveArchive,
                incomplete("Failed to download "@ + asset + ": "@ + error),
            ]
        },
        RuntimeStep::Verify => seq![
            ActionView::RemoveArchive,
            ActionView::Emit(status("error"@, error, Some("runtime_checksum_invalid"@))),
        ],
        RuntimeStep::Install => seq![
            ActionView::RemoveArchive,
            incomplete(
                if interrupted {
                    "Failed to install local runtime: task join error: "@ + error
                } else {
                    error
                },
            ),
        ],
        RuntimeStep::Validate => seq![ActionView::Rollback, incomplete(error)],
        _ => seq![incomplete(error)],
    }
}

/// The actions after a step.
pub open spec fn runtime_actions(
    step: RuntimeStep,
    outcome: StepOutcome,
    asset: Seq<char>,
) -> Seq<ActionView> {
    match outcome {
        StepOutcome::Done => runtime_success(step, asset),
        StepOutcome::Cancelled => runtime_failure(RuntimeStep::Fetch, false, "cancelled"@, asset),
        StepOutcome::Failed(error) => runtime_failure(step, false, error@, asset),
        StepOutcome::Interrupted(error) => runtime_failure(step, true, error@, asset),
    }
}

fn push_incomplete(actions: &mut Vec<InstallAction>, message: &str)
    ensures
        action_views(final(actions)@) == action_views(old(actions)@).push(
            ActionView::Emit(status("error"@, message@, Some("runtime_install_incomplete"@))),
        ),
{
    push_action(
        actions,
        InstallAction::Emit(reasoned_status("error", message, "runtime_install_incomplete")),
    );
}

fn after_runtime_failure(step: RuntimeStep, interrupted: bool, error: &str, asset: &str) -> (actions:
    Vec<InstallAction>)
    ensures
        action_views(actions@) == runtime_failure(step, interrupted, error@, asset@),
{
    let mut actions: Vec<InstallAction> = Vec::new();
    match step {
        RuntimeStep::CreateDir => {
            let mut message: String = "Failed to create runtime directory: ".to_owned();
            message.append(error);
            push_incomplete(&mut actions, message.as_str());
        },
        RuntimeStep::Fetch => {
            push_action(&mut actions, InstallAction::RemoveArchive);
            if same_text(error, "cancelled") {
                push_action(
                    &mut actions,
                    InstallAction::Emit(
                        reasoned_status(
                            "cancelled",
                            "Local runtime installation cancelled.",
                            "cancelled",
                        ),
                    ),
                );
            } else {
                push_incomplete(
                    &mut actions,
                    cat4("Failed to download ", asset, ": ", error).as_str(),
                );
            }
        },
        RuntimeStep::Verify => {
            push_action(&mut actions, InstallAction::RemoveArchive);
            push_action(
                &mut actions,
                InstallAction::Emit(reasoned_status("error", error, "runtime_checksum_invalid")),
            );
        },
        RuntimeStep::Install => {
            push_action(&mut actions, InstallAction::RemoveArchive);
            if interrupted {
                let mut message: String =
                    "Failed to install local runtime: task join error: ".to_owned();
                message.append(error);
                push_incomplete(&mut actions, message.as_str());
            } else {
                push_incomplete(&mut actions, error);
            }
        },
        RuntimeStep::Validate => {
            push_action(&mut actions, InstallAction::Rollback);
            push_incomplete(&mut actions, error);
        },
        _ => {
            push_incomplete(&mut actions, error);
        },
    }
    assert(action_views(actions@) =~= runtime_failure(step, interrupted, error@, asset@));
    actions
}

/// Decides what follows a step of the procedure, given how it ended.
pub fn spawn_runtime_provisioning_download(
    step: RuntimeStep,
    outcome: &StepOutcome,
    asset: &str,
) -> (r: (RuntimeStep, Vec<InstallAction>))
    ensures
        r.0 == if outcome is Done { runtime_following(step) } else { RuntimeStep::Over },
        action_views(r.1@) == runtime_actions(step, *outcome, asset@),
{
    match outcome {
        StepOutcome::Done => {
            let mut actions: Vec<InstallAction> = Vec::new();
            let next: RuntimeStep = match step {
                RuntimeStep::SelectAsset => RuntimeStep::CreateDir,
                RuntimeStep::CreateDir => RuntimeStep::Fetch,
                RuntimeStep::Fetch => RuntimeStep::Verify,
                RuntimeStep::Verify => RuntimeStep::Install,
                RuntimeStep::Install => {
                    push_action(&mut actions, InstallAction::RemoveArchive);
                    RuntimeStep::Validate
                },
                RuntimeStep::Validate => RuntimeStep::Commit,
                RuntimeStep::Commit => {
                    push_action(
                        &mut actions,
                        installed_progress(1, 1, asset, "speech_runtime", 100),
                    );
                    push_action(
                        &mut actions,
                        InstallAction::Emit(
                            plain_status(
                                "completed",
                                "Local transcription runtime installed successfully.",
                            ),
                        ),
                    );
                    RuntimeStep::Over
                },
                RuntimeStep::Over => RuntimeStep::Over,
            };
            assert(action_views(actions@) =~= runtime_success(step, asset@));
            (next, actions)
        },
        StepOutcome::Cancelled => (
            RuntimeStep::Over,
            after_runtime_failure(RuntimeStep::Fetch, false, "cancelled", asset),
        ),
        StepOutcome::Failed(error) => (
            RuntimeStep::Over,
            after_runtime_failure(step, false, error.as_str(), asset),
        ),
        StepOutcome::Interrupted(error) => (
            RuntimeStep::Over,
            after_runtime_failure(step, true, error.as_str(), asset),
        ),
    }
}

/// The install is reported as completed, or as progress, only by a commit that succeeded; binaries
/// that do not validate are rolled back.
pub proof fn runtime_success_needs_commit(step: RuntimeStep, outcome: StepOutcome, asset: Seq<char>)
    ensures
        !(step is Commit && outcome is Done) ==> forall|i: int|
            0 <= i < runtime_actions(step, outcome, asset).len() ==> {
                &&& #[trigger] runtime_actions(step, outcome, asset)[i] !is Progress
                &&& (runtime_actions(step, outcome, asset)[i] matches ActionView::Emit(s)
                    ==> s.state != "completed"@)
            },
        step is Validate && (outcome is Failed || outcome is Interrupted) ==> runtime_actions(
            step,
            outcome,
            asset,
        )[0] is Rollback,
{
    reveal_strlit("completed");
    reveal_strlit("error");
    reveal_strlit("cancelled");
    assert("completed"@.len() != "error"@.len());
    assert("completed"@[1] == 'o');
    assert("cancelled"@[1] == 'a');
}

/// The tool that is blamed is one that cannot be used, and none is blamed only where all can be; the
/// message names it, where it lies, and what went wrong with it.
#[verifier::rlimit(40)]
pub proof fn a_broken_tool_is_blamed(h: ManagedRuntimeHealth)
    ensures
        failing_tool(h) is None <==> h.ffmpeg.available && h.whisper_cli.available
            && h.whisper_stream.available && h.parakeet_cli.available,
        failing_tool(h) matches Some((label, tool)) ==> {
            &&& !tool.available
            &&& label == "FFmpeg"@ ==> tool == h.ffmpeg
            &&& label == "Whisper CLI"@ ==> tool == h.whisper_cli
            &&& label == "Whisper Stream"@ ==> tool == h.whisper_stream
            &&& label == "Parakeet CLI"@ ==> tool == h.parakeet_cli
            &&& starts_with(install_error_text(h), label)
            &&& contains(install_error_text(h), tool.resolved_path@)
            &&& trim(tool.failure_message@).len() > 0 ==> ends_with(
                install_error_text(h),
                trim(tool.failure_message@),
            )
        },
        !h.ffmpeg.available ==> failing_tool(h) == Some(("FFmpeg"@, h.ffmpeg)),
{
    reveal_strlit("FFmpeg");
    reveal_strlit("Whisper CLI");
    reveal_strlit("Whisper Stream");
    reveal_strlit("Parakeet CLI");
    assert("FFmpeg"@[0] == 'F');
    assert("Parakeet CLI"@[0] == 'P');
    assert("Whisper CLI"@[0] == 'W');
    assert("Whisper Stream"@[0] == 'W');
    assert("Whisper CLI"@.len() != "Whisper Stream"@.len());
    if let Some((label, tool)) = failing_tool(h) {
        let a = " could not be verified at '"@;
        let why = if trim(tool.failure_message@).len() == 0 {
            "Managed runtime verification failed."@
        } else {
            trim(tool.failure_message@)
        };
        let text = label + a + tool.resolved_path@ + "': "@ + why;
        lemma_tool_text(label, a, tool.resolved_path@, "': "@, why);
        assert(text == install_error_text(h));
    }
}

proof fn lemma_tool_text(
    label: Seq<char>,
    a: Seq<char>,
    path: Seq<char>,
    b: Seq<char>,
    why: Seq<char>,
)
    ensures
        starts_with(label + a + path + b + why, label),
        contains(label + a + path + b + why, path),
        ends_with(label + a + path + b + why, why),
{
    let text = label + a + path + b + why;
    assert(text.take(label.len() as int) =~= label);
    assert(text.skip(text.len() - why.len()) =~= why);
    lemma_contains_middle(label + a, path, b + why);
    assert(label + a + path + (b + why) =~= text);
}

/// A commit that did not finish says what went wrong, and, where a rollback failed, why. The previous
/// runtime is said to be restored exactly when it was.
pub proof fn an_unfinished_commit_says_why(
    error: RuntimeInstallCommitError,
    rollback: RollbackOutcome,
)
    ensures
        contains(commit_error_text(error, rollback), error.text()),
        error is BeforeValidationMarker ==> match rollback {
            RollbackOutcome::Restored => ends_with(
                commit_error_text(error, rollback),
                ". Previous runtime restored."@,
            ),
            RollbackOutcome::Failed(why) => contains(commit_error_text(error, rollback), why@)
                && ends_with(
                commit_error_text(error, rollback),
                ". Repair the runtime from Settings > Local Models."@,
            ),
            RollbackOutcome::Interrupted(why) => contains(commit_error_text(error, rollback), why@)
                && ends_with(
                commit_error_text(error, rollback),
                ". Repair the runtime from Settings > Local Models."@,
            ),
        },
{
    let e = error.text();
    let tail = ". Repair the runtime from Settings > Local Models."@;
    match error {
        RuntimeInstallCommitError::AfterValidationMarker(m) => lemma_contains_middle(
            "The local transcription runtime was validated, but cleanup is incomplete: "@,
            e,
            ". The validated runtime remains active; the install journal is retained for safe cleanup. Repair the runtime from Settings > Local Models."@,
        ),
        RuntimeInstallCommitError::BeforeValidationMarker(m) => {
            let head = "Failed to finalize the local transcription runtime: "@;
            match rollback {
                RollbackOutcome::Restored => {
                    let end = ". Previous runtime restored."@;
                    lemma_contains_middle(head, e, end);
                    let text = head + e + end;
                    assert(text.skip(text.len() - end.len()) =~= end);
                },
                RollbackOutcome::Failed(why) => lemma_rolled(
                    head,
                    e,
                    ". Automatic rollback failed: "@,
                    why@,
                    tail,
                ),
                RollbackOutcome::Interrupted(why) => lemma_rolled(
                    head,
                    e,
                    ". Automatic rollback task failed: "@,
                    why@,
                    tail,
                ),
            }
        },
    }
}

proof fn lemma_rolled(head: Seq<char>, e: Seq<char>, a: Seq<char>, why: Seq<char>, tail: Seq<char>)
    ensures
        contains(head + e + a + why + tail, e),
        contains(head + e + a + why + tail, why),
        ends_with(head + e + a + why + tail, tail),
{
    let text = head + e + a + why + tail;
    lemma_contains_middle(head, e, a + why + tail);
    assert(head + e + (a + why + tail) =~= text);
    lemma_contains_middle(head + e + a, why, tail);
    assert(text.skip(text.len() - tail.len()) =~= tail);
}

/// The place of a step in the procedure.
pub open spec fn runtime_rank(step: RuntimeStep) -> int {
    match step {
        RuntimeStep::SelectAsset => 0,
        RuntimeStep::CreateDir => 1,
        RuntimeStep::Fetch => 2,
        RuntimeStep::Verify => 3,
        RuntimeStep::Install => 4,
        RuntimeStep::Validate => 5,
        RuntimeStep::Commit => 6,
        RuntimeStep::Over => 7,
    }
}

/// The procedure takes every step once and in its order: an archive is checked before it is installed, and
/// what was installed is validated before it is committed.
pub proof fn a_runtime_install_takes_every_step(step: RuntimeStep)
    requires
        step !is Over,
    ensures
        runtime_rank(runtime_following(step)) == runtime_rank(step) + 1,
{
}

/// The last action after a step that failed tells it: as cancelled where that is what happened to the
/// download, else as an error whose message ends with what went wrong, under the reason of the step. An
/// archive that was downloaded is removed.
pub proof fn a_failed_runtime_step_is_told(
    step: RuntimeStep,
    interrupted: bool,
    error: Seq<char>,
    asset: Seq<char>,
)
    ensures
        ({
            let acts = runtime_failure(step, interrupted, error, asset);
            &&& acts.len() > 0
            &&& acts.last() matches ActionView::Emit(s) && {
                if step is Fetch && error == "cancelled"@ {
                    s.state == "cancelled"@ && s.reason_code == Some("cancelled"@)
                } else {
                    &&& s.state == "error"@
                    &&& ends_with(s.message, error)
                    &&& step is Verify ==> s.reason_code == Some("runtime_checksum_invalid"@)
                    &&& step !is Verify ==> s.reason_code == Some("runtime_install_incomplete"@)
                    &&& step is Fetch ==> contains(s.message, asset)
                }
            }
            &&& step is Fetch || step is Verify || step is Install ==> acts[0] is RemoveArchive
        }),
{
    let acts = runtime_failure(step, interrupted, error, asset);
    let m = acts.last()->Emit_0.message;
    if !(step is Fetch && error == "cancelled"@) {
        assert(m.skip(m.len() - error.len()) =~= error);
    }
    if step is Fetch {
        let head = "Failed to download "@;
        lemma_contains_middle(head, asset, ": "@ + error);
        assert(head + asset + (": "@ + error) =~= head + asset + ": "@ + error);
    }
}

/// A committed install is told as progress of the whole and then as completed, under the asset's name.
pub proof fn a_committed_runtime_is_told(asset: Seq<char>)
    ensures
        ({
            let acts = runtime_success(RuntimeStep::Commit, asset);
            &&& acts.len() == 2
            &&& acts[0] matches ActionView::Progress(p) && p.asset == asset && p.current == p.total
                && p.percentage == 100 && p.asset_kind == "speech_runtime"@
            &&& acts[1] matches ActionView::Emit(s) && s.state == "completed"@ && s.reason_code is None
        }),
        runtime_success(RuntimeStep::Install, asset) == seq![ActionView::RemoveArchive],
{
}

} // verus!
