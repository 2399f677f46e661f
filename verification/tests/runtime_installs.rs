//! Installing and recovering the managed runtime, on a disk that is a few names.

use sbobino_commands::paths::PathStyle;
use sbobino_commands::provisioning::archive_install::{
    cleanup_pyannote_workdir, install_coreml_encoder_archive, install_pyannote_archive,
    prepare_pyannote_runtime_swap, promote_staged_pyannote_runtime, rollback_pyannote_runtime_swap,
    swap_error, EncoderNext, EncoderPaths, EncoderStep, PyannoteArchiveStep, PyannoteWorkdir,
    SwapOp,
};
use sbobino_commands::provisioning::runtime_install::{
    clear_runtime_install_journal, clear_runtime_install_journal_with,
    commit_runtime_install_transaction, commit_runtime_install_transaction_with_cleanup,
    install_runtime_archive, next_step, publish_failure, recover_interrupted_runtime_install,
    recovery_error, rollback_runtime_install_transaction, runtime_install_journal_backup_path,
    runtime_install_journal_path, runtime_journal_in_force, stage_runtime_archive, ClearStep,
    CommitStop, JournalFlags, JournalReading, PlanStep, PublishFailure, RuntimeInstallCommitError,
    RuntimeInstallJournal, RuntimeInstallTransaction, RuntimeOp, StageStep, StagedArchive,
};
use sbobino_commands::provisioning::runtime_provision::{
    commit_needs_rollback, runtime_commit_error, RollbackOutcome,
};
use sbobino_commands::provisioning::runtime_recovery::{
    journal_write_error, write_runtime_install_journal, JournalWrite,
};

const ROOT: &str = "/data";
const STYLE: PathStyle = PathStyle::Unix;

/// The runtime's directories, by what they hold, and the two journals.
#[derive(Clone, Debug, PartialEq)]
struct Disk {
    bin: Option<&'static str>,
    lib: Option<&'static str>,
    backup_bin: Option<&'static str>,
    backup_lib: Option<&'static str>,
    staged: Option<(&'static str, &'static str)>,
    journal: Option<JournalFlags>,
    previous_journal: Option<JournalFlags>,
}

impl Disk {
    fn installed() -> Disk {
        Disk {
            bin: Some("old-bin"),
            lib: Some("old-lib"),
            backup_bin: None,
            backup_lib: None,
            staged: Some(("new-bin", "new-lib")),
            journal: None,
            previous_journal: None,
        }
    }

    fn settled(bin: &'static str, lib: &'static str) -> Disk {
        Disk {
            bin: Some(bin),
            lib: Some(lib),
            backup_bin: None,
            backup_lib: None,
            staged: None,
            journal: None,
            previous_journal: None,
        }
    }

    fn apply(&mut self, op: RuntimeOp) {
        match op {
            RuntimeOp::WriteJournal(flags) => {
                self.journal = Some(flags);
                self.previous_journal = None;
            }
            RuntimeOp::BackUpBin => self.backup_bin = self.bin.take(),
            RuntimeOp::BackUpLib => self.backup_lib = self.lib.take(),
            RuntimeOp::PromoteBin => self.bin = self.staged.map(|pair| pair.0),
            RuntimeOp::PromoteLib => self.lib = self.staged.map(|pair| pair.1),
            RuntimeOp::RemoveBin => self.bin = None,
            RuntimeOp::RemoveLib => self.lib = None,
            RuntimeOp::RestoreBin => self.bin = self.backup_bin.take(),
            RuntimeOp::RestoreLib => self.lib = self.backup_lib.take(),
            RuntimeOp::RemoveStage => self.staged = None,
            RuntimeOp::RemoveBackup => {
                self.backup_bin = None;
                self.backup_lib = None;
            }
            RuntimeOp::ClearFallbackJournal => self.previous_journal = None,
            RuntimeOp::ClearPrimaryJournal => self.journal = None,
        }
    }

    fn run(&mut self, ops: &[RuntimeOp]) {
        for op in ops {
            self.apply(*op);
        }
    }

    fn reading(&self) -> JournalReading {
        match self.journal.or(self.previous_journal) {
            None => JournalReading::Missing,
            Some(flags) => JournalReading::Read {
                journal: journal(flags),
                bin_in_backup: self.backup_bin.is_some(),
                lib_in_backup: self.backup_lib.is_some(),
            },
        }
    }

    fn recover(&mut self) {
        let ops = recover_interrupted_runtime_install(STYLE, ROOT, &self.reading())
            .expect("recovery should be planned");
        self.run(&ops);
    }
}

fn journal(flags: JournalFlags) -> RuntimeInstallJournal {
    RuntimeInstallJournal {
        install_root: ROOT.to_string(),
        destination: "/data/bin".to_string(),
        lib_destination: "/data/lib".to_string(),
        backup_dir: "/data/.runtime-backup-1".to_string(),
        stage_dir: "/data/runtime/.stage-1".to_string(),
        old_bin_present: flags.old_bin_present,
        old_lib_present: flags.old_lib_present,
        new_bin_attempted: flags.new_bin_attempted,
        new_lib_attempted: flags.new_lib_attempted,
        validated: flags.validated,
    }
}

fn transaction(flags: JournalFlags) -> RuntimeInstallTransaction {
    RuntimeInstallTransaction {
        journal: journal(flags),
        install_root: ROOT.to_string(),
        backup_dir: "/data/.runtime-backup-1".to_string(),
        stage_dir: "/data/runtime/.stage-1".to_string(),
    }
}

fn staged(has_root: bool, has_lib: bool) -> StagedArchive {
    StagedArchive {
        archive_path: "replacement.zip".to_string(),
        has_root,
        has_bin: has_root,
        has_lib,
    }
}

fn publish_plan() -> Vec<RuntimeOp> {
    install_runtime_archive(&staged(true, true), true, true).expect("archive should publish")
}

#[test]
fn install_runtime_archive_extracts_expected_layout_and_permissions() {
    let mut disk = Disk::installed();
    disk.run(&publish_plan());
    assert_eq!((disk.bin, disk.lib), (Some("new-bin"), Some("new-lib")));
    let flags = disk.journal.expect("an open transaction");
    disk.run(&commit_runtime_install_transaction(&transaction(flags)));
    assert_eq!(disk, Disk::settled("new-bin", "new-lib"));
}

#[test]
fn checksum_valid_but_unrunnable_runtime_rolls_back_until_validation() {
    let mut disk = Disk::installed();
    disk.run(&publish_plan());
    let flags = disk.journal.expect("journal should stay until validation");
    assert!(!flags.validated);
    assert_eq!(disk.bin, Some("new-bin"));

    let ops = rollback_runtime_install_transaction(STYLE, &transaction(flags), &disk.reading())
        .expect("failed validation should restore the previous runtime");
    disk.run(&ops);
    assert_eq!(disk, Disk::settled("old-bin", "old-lib"));
}

#[test]
fn runtime_commit_marker_failure_rolls_back_without_success_state() {
    let mut disk = Disk::installed();
    disk.run(&publish_plan());
    let flags = disk.journal.expect("an open transaction");
    let plan = commit_runtime_install_transaction(&transaction(flags));
    let stop = CommitStop {
        op: plan[0],
        error: "failed to write runtime install journal".to_string(),
        marker_published: false,
    };
    let error =
        commit_runtime_install_transaction_with_cleanup(&transaction(flags), &Some(stop))
            .err()
            .expect("validation marker publication should fail");
    assert!(matches!(error, RuntimeInstallCommitError::BeforeValidationMarker(_)));
    assert!(error.message().contains("failed to write runtime install journal"));
    assert!(commit_needs_rollback(&error));

    disk.recover();
    assert_eq!(disk, Disk::settled("old-bin", "old-lib"));
    let text = runtime_commit_error(&error, &RollbackOutcome::Restored);
    assert!(text.ends_with(". Previous runtime restored."));
}

#[test]
fn runtime_commit_post_marker_cleanup_failures_are_incomplete_and_recoverable() {
    let mut open = Disk::installed();
    open.run(&publish_plan());
    let flags = open.journal.expect("an open transaction");
    let plan = commit_runtime_install_transaction(&transaction(flags));
    for failing in 1..plan.len() {
        let mut disk = open.clone();
        disk.run(&plan[..failing]);
        let stop = CommitStop {
            op: plan[failing],
            error: "injected cleanup failure".to_string(),
            marker_published: true,
        };
        let error =
            commit_runtime_install_transaction_with_cleanup(&transaction(flags), &Some(stop))
                .err()
                .expect("post-marker cleanup failure must not report success");
        assert!(error.message().contains("runtime validation completed"));
        assert!(matches!(error, RuntimeInstallCommitError::AfterValidationMarker(_)));
        assert!(!commit_needs_rollback(&error));
        assert_eq!(disk.bin, Some("new-bin"));

        disk.recover();
        assert_eq!(disk, Disk::settled("new-bin", "new-lib"));
    }
}

#[test]
fn recovery_finishes_cleanup_after_validation_marker_without_rollback() {
    let mut disk = Disk::installed();
    disk.run(&publish_plan());
    let flags = disk.journal.expect("an open transaction");
    disk.apply(RuntimeOp::WriteJournal(JournalFlags { validated: true, ..flags }));
    disk.recover();
    assert_eq!(disk, Disk::settled("new-bin", "new-lib"));
}

#[test]
fn runtime_recovery_fault_injection_preserves_library_when_backup_fails() {
    let plan = publish_plan();
    let failing = plan.iter().position(|op| *op == RuntimeOp::BackUpLib).expect("a library backup");
    let mut disk = Disk::installed();
    disk.run(&plan[..failing]);
    assert_eq!(publish_failure(plan[failing]), PublishFailure::Recover);
    disk.recover();
    assert_eq!(disk, Disk::settled("old-bin", "old-lib"));
}

#[test]
fn runtime_recovery_fault_injection_rolls_back_second_promotion() {
    let plan = publish_plan();
    let failing = plan.iter().position(|op| *op == RuntimeOp::PromoteLib).expect("a promotion");
    let mut disk = Disk::installed();
    disk.run(&plan[..failing]);
    assert_eq!(disk.bin, Some("new-bin"));
    assert_eq!(disk.lib, None);
    disk.recover();
    assert_eq!(disk, Disk::settled("old-bin", "old-lib"));
}

#[test]
fn every_interruption_of_a_publication_can_be_undone() {
    let plan = publish_plan();
    for done in 0..=plan.len() {
        let mut disk = Disk::installed();
        disk.run(&plan[..done]);
        disk.recover();
        assert_eq!((disk.bin, disk.lib), (Some("old-bin"), Some("old-lib")));
    }
}

#[test]
fn recoveries_can_be_interrupted_and_repeated() {
    let mut open = Disk::installed();
    open.run(&publish_plan());
    let ops = recover_interrupted_runtime_install(STYLE, ROOT, &open.reading()).expect("a plan");
    for done in 0..=ops.len() {
        let mut disk = open.clone();
        disk.run(&ops[..done]);
        disk.recover();
        assert_eq!(disk, Disk::settled("old-bin", "old-lib"));
    }
}

#[test]
fn incomplete_archives_are_refused() {
    let rootless = install_runtime_archive(&staged(false, false), true, true).err();
    assert_eq!(
        rootless.as_deref(),
        Some("Runtime archive 'replacement.zip' does not contain expected 'runtime' directory.")
    );
    let partial = install_runtime_archive(&staged(true, false), true, true).err();
    assert_eq!(
        partial.as_deref(),
        Some("Runtime archive 'replacement.zip' is missing expected 'bin' or 'lib' directories.")
    );
}

#[test]
fn journals_that_cannot_be_used_stop_the_recovery() {
    let unreadable =
        JournalReading::Unreadable { path: "/data/j".to_string(), error: "denied".to_string() };
    let error = recover_interrupted_runtime_install(STYLE, ROOT, &unreadable).err().expect("an error");
    assert_eq!(error, "failed to read runtime install journal '/data/j': denied");
    let malformed =
        JournalReading::Malformed { path: "/data/j".to_string(), error: "eof".to_string() };
    let error = recover_interrupted_runtime_install(STYLE, ROOT, &malformed).err().expect("an error");
    assert_eq!(error, "failed to parse runtime install journal '/data/j': eof");
    let flags = JournalFlags {
        old_bin_present: true,
        old_lib_present: true,
        new_bin_attempted: false,
        new_lib_attempted: false,
        validated: false,
    };
    let elsewhere =
        JournalReading::Read { journal: journal(flags), bin_in_backup: true, lib_in_backup: true };
    let error = recover_interrupted_runtime_install(STYLE, "/other", &elsewhere).err().expect("an error");
    assert!(error.contains("refusing recovery"));
    assert!(recover_interrupted_runtime_install(STYLE, ROOT, &JournalReading::Missing)
        .expect("nothing to do")
        .is_empty());
    assert!(recovery_error(STYLE, RuntimeOp::RestoreBin, "/data/b", "denied").contains("denied"));
}

#[test]
fn the_previous_journal_counts_when_there_is_no_other() {
    let primary = runtime_install_journal_path(STYLE, ROOT);
    let previous = runtime_install_journal_backup_path(STYLE, ROOT);
    assert_ne!(primary, previous);
    assert_eq!(runtime_journal_in_force(STYLE, ROOT, true, true), Some(primary));
    assert_eq!(runtime_journal_in_force(STYLE, ROOT, false, true), Some(previous));
    assert_eq!(runtime_journal_in_force(STYLE, ROOT, false, false), None);
}

#[test]
fn an_archive_is_staged_before_anything_is_published() {
    let mut steps = vec![StageStep::ClearStage];
    while *steps.last().expect("a step") != StageStep::Over {
        let next = stage_runtime_archive(*steps.last().expect("a step"), &None);
        steps.push(next.ok().expect("the step succeeded"));
    }
    assert_eq!(
        steps,
        vec![
            StageStep::ClearStage,
            StageStep::CreateStage,
            StageStep::Extract,
            StageStep::Plan,
            StageStep::CreateRoot,
            StageStep::ClearBackup,
            StageStep::CreateBackup,
            StageStep::Over,
        ]
    );
    let failed = |step| {
        let failure =
            stage_runtime_archive(step, &Some("disk full".to_string())).err().expect("a failure");
        (failure.remove_stage, failure.error)
    };
    assert_eq!(failed(StageStep::Extract), (true, "disk full".to_string()));
    assert_eq!(failed(StageStep::Plan), (true, "disk full".to_string()));
    assert_eq!(
        failed(StageStep::CreateStage),
        (false, "failed to create runtime staging directory: disk full".to_string())
    );
    assert_eq!(
        failed(StageStep::CreateRoot),
        (false, "failed to create runtime install root: disk full".to_string())
    );
    assert_eq!(
        failed(StageStep::CreateBackup),
        (false, "failed to create runtime backup directory: disk full".to_string())
    );
    assert_eq!(failed(StageStep::ClearBackup), (false, "disk full".to_string()));
}

#[test]
fn a_journal_write_ends_whatever_fails() {
    let mut step = JournalWrite::WriteTemp;
    while step != JournalWrite::Done {
        step = write_runtime_install_journal(step, true);
        assert_ne!(step, JournalWrite::Failed);
    }
    assert_eq!(
        write_runtime_install_journal(JournalWrite::WriteTemp, false),
        JournalWrite::Failed
    );
    let reason = |step| journal_write_error(step, "/j", "/t", "/p", "disk full");
    assert_eq!(
        reason(JournalWrite::WriteTemp).as_deref(),
        Some("failed to write runtime install journal '/t': disk full")
    );
    assert_eq!(reason(JournalWrite::DropFallback).as_deref(), Some("disk full"));
    assert_eq!(
        reason(JournalWrite::PublishAgain).as_deref(),
        Some("failed to publish runtime install journal '/j': disk full")
    );
    assert_eq!(
        reason(JournalWrite::DropPrevious).as_deref(),
        Some("failed to remove previous runtime install journal '/p': disk full")
    );
    assert_eq!(reason(JournalWrite::Publish), None);
    assert_eq!(reason(JournalWrite::PutBack), None);
}

/// Runs swap operations on the runtime and its backup.
fn swap(ops: &[SwapOp], runtime: &mut Option<&'static str>, backup: &mut Option<&'static str>) {
    for op in ops {
        match op {
            SwapOp::BackUp => *backup = runtime.take(),
            SwapOp::Clear => *runtime = None,
            SwapOp::Promote => *runtime = Some("new-runtime"),
            SwapOp::Restore => *runtime = backup.take(),
        }
    }
}

#[test]
fn pyannote_runtime_swap_rolls_back_previous_install_on_failure() {
    assert!(prepare_pyannote_runtime_swap(true, true));
    let (mut runtime, mut backup) = (Some("broken-runtime"), Some("old-runtime"));
    swap(&rollback_pyannote_runtime_swap(true, true), &mut runtime, &mut backup);
    assert_eq!(runtime, Some("old-runtime"));
    assert_eq!(backup, None);
}

#[test]
fn promote_staged_pyannote_runtime_swaps_only_after_staging_finishes() {
    let (mut runtime, mut backup) = (Some("old-runtime"), None);
    swap(&promote_staged_pyannote_runtime(true, true, true), &mut runtime, &mut backup);
    assert_eq!(backup, Some("old-runtime"));
    assert_eq!(runtime, Some("new-runtime"));
    swap(&rollback_pyannote_runtime_swap(true, true), &mut runtime, &mut backup);
    assert_eq!(runtime, Some("old-runtime"));
}

#[test]
fn leftovers_are_recognised_by_their_names() {
    let workdir = PyannoteWorkdir {
        runtime_dir: "/data/pyannote".to_string(),
        python_dir: "/data/pyannote/python".to_string(),
        model_dir: "/data/pyannote/model".to_string(),
        manifest_path: "/data/pyannote/install.json".to_string(),
    };
    let entries: Vec<String> = [".download-runtime.zip", "python", "status.json", ".stage-1"]
        .iter()
        .map(|name| name.to_string())
        .collect();
    assert_eq!(
        cleanup_pyannote_workdir(STYLE, &workdir, &entries),
        vec![
            "/data/pyannote/python",
            "/data/pyannote/model",
            "/data/pyannote/install.json",
            "/data/pyannote/.download-runtime.zip",
            "/data/pyannote/.stage-1",
        ]
    );
    assert_eq!(cleanup_pyannote_workdir(STYLE, &workdir, &Vec::new()).len(), 3);
}

#[test]
fn failed_swaps_say_which_move_failed() {
    let words = |op: SwapOp| swap_error(op, "/d/pyannote", "/d/.backup", "denied");
    assert_eq!(
        words(SwapOp::BackUp),
        "failed to stage existing pyannote runtime '/d/pyannote' into backup '/d/.backup': denied"
    );
    assert_eq!(
        words(SwapOp::Restore),
        "failed to restore pyannote runtime backup '/d/.backup' into '/d/pyannote': denied"
    );
    assert_eq!(words(SwapOp::Clear), "denied");
    assert_eq!(words(SwapOp::Promote), "denied");
}

/// Carries a plan out, with an operation that fails, and gives what was tried.
fn tried(plan: &Vec<RuntimeOp>, failing: usize) -> (Vec<RuntimeOp>, Option<String>) {
    let mut done = Vec::new();
    let mut last = Ok(());
    loop {
        match next_step(plan, done.len(), &last) {
            PlanStep::Perform(index) => {
                done.push(plan[index]);
                last = if index == failing { Err("disk full".to_string()) } else { Ok(()) };
            }
            PlanStep::Done => return (done, None),
            PlanStep::Stop(error) => return (done, Some(error)),
        }
    }
}

#[test]
fn a_plan_ends_at_its_first_failure() {
    let plan = publish_plan();
    for failing in 0..plan.len() {
        let (done, error) = tried(&plan, failing);
        assert_eq!(done, plan[..failing + 1].to_vec());
        assert_eq!(error.as_deref(), Some("disk full"));
    }
    assert_eq!(tried(&plan, plan.len()), (plan.clone(), None));
    assert_eq!(tried(&Vec::new(), 0), (Vec::new(), None));
}

/// Clears the journal with a removal that fails at some paths.
fn cleared(failing: &[&str]) -> (Vec<String>, Result<(), String>) {
    let mut removed = Vec::new();
    let mut results = Vec::new();
    loop {
        match clear_runtime_install_journal_with(STYLE, ROOT, &results) {
            ClearStep::Remove(path) => {
                results.push(if failing.contains(&path.as_str()) {
                    Err(format!("cannot remove {path}"))
                } else {
                    Ok(())
                });
                removed.push(path);
            }
            ClearStep::Ended(result) => return (removed, result),
        }
    }
}

#[test]
fn the_journal_is_kept_while_the_previous_one_cannot_be_removed() {
    let primary = "/data/.runtime-install-journal.json";
    let previous = "/data/.runtime-install-journal.previous.json";
    let both = vec![previous.to_string(), primary.to_string()];
    assert_eq!(cleared(&[]), (both.clone(), Ok(())));
    assert_eq!(
        cleared(&[previous]),
        (vec![previous.to_string()], Err(format!("cannot remove {previous}")))
    );
    assert_eq!(cleared(&[primary]), (both, Err(format!("cannot remove {primary}"))));
}

#[test]
fn a_root_may_be_written_in_more_ways_than_one() {
    let flags = JournalFlags {
        old_bin_present: true,
        old_lib_present: true,
        new_bin_attempted: true,
        new_lib_attempted: false,
        validated: false,
    };
    for root in ["/data/", "//data", "/./data/."] {
        let reading = JournalReading::Read {
            journal: journal(flags),
            bin_in_backup: true,
            lib_in_backup: true,
        };
        assert!(recover_interrupted_runtime_install(STYLE, root, &reading).is_ok(), "{root}");
    }
    for root in ["data", "/data/../data", "/Data"] {
        let reading = JournalReading::Read {
            journal: journal(flags),
            bin_in_backup: true,
            lib_in_backup: true,
        };
        assert!(recover_interrupted_runtime_install(STYLE, root, &reading).is_err(), "{root}");
    }
}

#[test]
fn install_pyannote_archive_extracts_expected_root() {
    let mut step = PyannoteArchiveStep::ClearStage;
    let mut taken = 0;
    while step != PyannoteArchiveStep::Over {
        step = install_pyannote_archive(step, &None, "pyannote-runtime.zip", "python")
            .expect("pyannote runtime should install");
        taken += 1;
        assert!(taken < 20);
    }
    let missing = install_pyannote_archive(
        PyannoteArchiveStep::FindRoot,
        &Some("missing".to_string()),
        "pyannote-runtime.zip",
        "python",
    );
    assert!(missing.is_err());
}

#[test]
fn a_failed_encoder_install_puts_the_encoder_back() {
    let paths = EncoderPaths {
        archive: "encoder.zip".to_string(),
        encoder_dir: "encoder.mlmodelc".to_string(),
        destination: "/models/encoder.mlmodelc".to_string(),
        backup_dir: "/models/.encoder-backup".to_string(),
        staged: "/models/.encoder-stage/encoder.mlmodelc".to_string(),
    };
    let failed = Some("denied".to_string());
    match install_coreml_encoder_archive(EncoderStep::Promote, &failed, true, &paths) {
        EncoderNext::Fail { restore_backup, message, .. } => {
            assert!(restore_backup);
            assert!(message.contains("denied"));
        }
        EncoderNext::Go(_) => panic!("a failure was expected"),
    }
    match install_coreml_encoder_archive(EncoderStep::Promote, &failed, false, &paths) {
        EncoderNext::Fail { restore_backup, .. } => assert!(!restore_backup),
        EncoderNext::Go(_) => panic!("a failure was expected"),
    }
}

#[test]
fn the_older_journal_is_cleared_first() {
    assert_eq!(
        clear_runtime_install_journal(),
        vec![RuntimeOp::ClearFallbackJournal, RuntimeOp::ClearPrimaryJournal],
    );
}
