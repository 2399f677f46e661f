//! The transaction that replaces the managed runtime's `bin` and `lib` directories.
//!
//! A journal is written before an existing component is moved and is kept until the replacement
//! has passed validation, so that an interruption at any point can be recovered: an unvalidated
//! transaction is rolled back to the previous pair, a validated one is only cleaned up.
//!
//! The functions here decide what to do; the file operations they name are carried out by the
//! caller. What an interruption can and cannot lose is proved in the module `runtime_recovery`, on
//! a model of the directories that these operations touch.

use vstd::prelude::*;
use vstd::string::*;

use crate::paths::{
    a_join_is_the_directory_and_the_name, is_rooted, is_same_path, join_path, joined, prefix_len,
    same_path, PathStyle,
};
use crate::text::{
    cat2, cat3, cat4, cat5, contains, ends_with, lemma_contains_middle, starts_with,
};

verus! {

/// What the journal records about a transaction.
pub struct RuntimeInstallJournal {
    pub install_root: String,
    pub destination: String,
    pub lib_destination: String,
    pub backup_dir: String,
    pub stage_dir: String,
    pub old_bin_present: bool,
    pub old_lib_present: bool,
    pub new_bin_attempted: bool,
    pub new_lib_attempted: bool,
    /// Set only after the replacement passed validation.
    pub validated: bool,
}

/// The part of a journal that recovery decides on.
#[derive(Clone, Copy, PartialEq, Eq, Structural, Debug)]
pub struct JournalFlags {
    pub old_bin_present: bool,
    pub old_lib_present: bool,
    pub new_bin_attempted: bool,
    pub new_lib_attempted: bool,
    pub validated: bool,
}

/// A published runtime that has not passed validation yet.
pub struct RuntimeInstallTransaction {
    pub journal: RuntimeInstallJournal,
    pub install_root: String,
    pub backup_dir: String,
    pub stage_dir: String,
}

/// Why a commit did not finish, and on which side of the validation marker.
pub enum RuntimeInstallCommitError {
    BeforeValidationMarker(String),
    AfterValidationMarker(String),
}

/// A file operation of the transaction. The removals do nothing when the path does not exist.
#[derive(Clone, Copy, PartialEq, Eq, Structural, Debug)]
pub enum RuntimeOp {
    /// Write the journal with these flags.
    WriteJournal(JournalFlags),
    /// Rename `bin` into the backup directory.
    BackUpBin,
    /// Rename `lib` into the backup directory.
    BackUpLib,
    /// Rename the staged `bin` into place.
    PromoteBin,
    /// Rename the staged `lib` into place.
    PromoteLib,
    /// Remove `bin`.
    RemoveBin,
    /// Remove `lib`.
    RemoveLib,
    /// Rename the backed-up `bin` into place.
    RestoreBin,
    /// Rename the backed-up `lib` into place.
    RestoreLib,
    /// Remove the staging directory.
    RemoveStage,
    /// Remove the backup directory.
    RemoveBackup,
    /// Remove the previous journal.
    ClearFallbackJournal,
    /// Remove the journal.
    ClearPrimaryJournal,
}

impl RuntimeInstallJournal {
    /// The flags of a journal.
    pub open spec fn spec_flags(&self) -> JournalFlags {
        JournalFlags {
            old_bin_present: self.old_bin_present,
            old_lib_present: self.old_lib_present,
            new_bin_attempted: self.new_bin_attempted,
            new_lib_attempted: self.new_lib_attempted,
            validated: self.validated,
        }
    }

    /// The flags of the journal.
    pub fn flags(&self) -> (r: JournalFlags)
        ensures
            r == self.spec_flags(),
    {
        JournalFlags {
            old_bin_present: self.old_bin_present,
            old_lib_present: self.old_lib_present,
            new_bin_attempted: self.new_bin_attempted,
            new_lib_attempted: self.new_lib_attempted,
            validated: self.validated,
        }
    }
}

impl RuntimeInstallCommitError {
    /// The text of the error.
    pub open spec fn text(&self) -> Seq<char> {
        match self {
            RuntimeInstallCommitError::BeforeValidationMarker(m) => m@,
            RuntimeInstallCommitError::AfterValidationMarker(m) => m@,
        }
    }

    /// The message of the error.
    pub fn message(&self) -> (r: &str)
        ensures
            r@ == self.text(),
    {
        match self {
            RuntimeInstallCommitError::BeforeValidationMarker(m) => m.as_str(),
            RuntimeInstallCommitError::AfterValidationMarker(m) => m.as_str(),
        }
    }
}

/// The path of the journal of an install root.
pub open spec fn journal_path(style: PathStyle, install_root: Seq<char>) -> Seq<char> {
    joined(style, install_root, ".runtime-install-journal.json"@)
}

/// The path of the previous journal of an install root.
pub open spec fn previous_journal_path(style: PathStyle, install_root: Seq<char>) -> Seq<char> {
    joined(style, install_root, ".runtime-install-journal.previous.json"@)
}

/// Where the journal of an install root lies.
pub fn runtime_install_journal_path(style: PathStyle, install_root: &str) -> (r: String)
    ensures
        r@ == journal_path(style, install_root@),
{
    join_path(style, install_root, ".runtime-install-journal.json")
}

/// Where the previous journal of an install root lies while a new one is swapped in.
pub fn runtime_install_journal_backup_path(style: PathStyle, install_root: &str) -> (r: String)
    ensures
        r@ == previous_journal_path(style, install_root@),
{
    join_path(style, install_root, ".runtime-install-journal.previous.json")
}

// ---------------------------------------------------------------------------
// Carrying out a plan
// ---------------------------------------------------------------------------

/// What comes next in a list of operations.
pub enum PlanStep {
    /// Perform the operation at this index.
    Perform(usize),
    /// All operations were performed.
    Done,
    /// Stop: the last operation failed with this error.
    Stop(String),
}

/// What comes next in a list of operations, as a value of numbers and texts.
pub enum PlanStepView {
    Perform(nat),
    Done,
    Stop(Seq<char>),
}

impl View for PlanStep {
    type V = PlanStepView;

    open spec fn view(&self) -> PlanStepView {
        match self {
            PlanStep::Perform(index) => PlanStepView::Perform(*index as nat),
            PlanStep::Done => PlanStepView::Done,
            PlanStep::Stop(error) => PlanStepView::Stop(error@),
        }
    }
}

/// The error of a result.
pub open spec fn failure(result: Result<(), String>) -> Option<Seq<char>> {
    match result {
        Ok(_) => None,
        Err(error) => Some(error@),
    }
}

/// What comes next when `done` of `len` operations were tried and the last one failed so.
pub open spec fn plan_step(len: nat, done: nat, last: Option<Seq<char>>) -> PlanStepView {
    match last {
        Some(error) => PlanStepView::Stop(error),
        None => if done < len {
            PlanStepView::Perform(done)
        } else {
            PlanStepView::Done
        },
    }
}

/// Decides what comes next in a list of operations. `done` of them were tried, the last of these
/// with the result `last`; before the first one it is `Ok`.
pub fn next_step<T>(ops: &Vec<T>, done: usize, last: &Result<(), String>) -> (r: PlanStep)
    ensures
        r@ == plan_step(ops@.len(), done as nat, failure(*last)),
{
    match last {
        Err(error) => PlanStep::Stop(error.clone()),
        Ok(_) => {
            if done < ops.len() {
                PlanStep::Perform(done)
            } else {
                PlanStep::Done
            }
        },
    }
}

/// The operations that a run performs from one of them on, and the error that it ends with, where
/// `errors` says how each operation fails.
pub open spec fn plan_run<T>(
    ops: Seq<T>,
    errors: spec_fn(int) -> Option<Seq<char>>,
    done: nat,
    last: Option<Seq<char>>,
) -> (Seq<T>, Option<Seq<char>>)
    decreases ops.len() - done,
{
    match plan_step(ops.len(), done, last) {
        PlanStepView::Perform(index) => if done < ops.len() {
            let rest = plan_run(ops, errors, done + 1, errors(done as int));
            (seq![ops[index as int]] + rest.0, rest.1)
        } else {
            (Seq::empty(), None)
        },
        PlanStepView::Done => (Seq::empty(), None),
        PlanStepView::Stop(error) => (Seq::empty(), Some(error)),
    }
}

proof fn lemma_plan_run<T>(
    ops: Seq<T>,
    errors: spec_fn(int) -> Option<Seq<char>>,
    done: nat,
    end: int,
)
    requires
        done <= end <= ops.len(),
        forall|i: int| done <= i < end ==> #[trigger] errors(i) is None,
    ensures
        end < ops.len() && errors(end) is Some ==> plan_run(ops, errors, done, None) == (
            ops.subrange(done as int, end + 1),
            errors(end),
        ),
        end == ops.len() ==> plan_run(ops, errors, done, None) == (
            ops.subrange(done as int, end),
            None::<Seq<char>>,
        ),
    decreases end - done,
{
    let run = plan_run(ops, errors, done, None);
    if done < end {
        assert(errors(done as int) is None);
        lemma_plan_run(ops, errors, done + 1, end);
        let rest = plan_run(ops, errors, done + 1, None);
        assert(run.0 =~= seq![ops[done as int]] + rest.0);
        if end < ops.len() && errors(end) is Some {
            assert(run.0 =~= ops.subrange(done as int, end + 1));
        }
        if end == ops.len() {
            assert(run.0 =~= ops.subrange(done as int, end));
        }
    } else if done < ops.len() {
        let rest = plan_run(ops, errors, done + 1, errors(end));
        if errors(end) is Some {
            assert(rest.0 =~= Seq::<T>::empty());
            assert(run.0 =~= ops.subrange(done as int, end + 1));
        }
    } else {
        assert(run.0 =~= ops.subrange(done as int, end));
    }
}

/// A run stops at its first failure, with the error unchanged: the operations up to that one were
/// performed, in order, and none after it.
pub proof fn first_failure_ends_the_plan<T>(
    ops: Seq<T>,
    errors: spec_fn(int) -> Option<Seq<char>>,
    k: int,
)
    requires
        0 <= k < ops.len(),
        errors(k) is Some,
        forall|i: int| 0 <= i < k ==> #[trigger] errors(i) is None,
    ensures
        plan_run(ops, errors, 0, None) == (ops.take(k + 1), errors(k)),
{
    lemma_plan_run(ops, errors, 0, k);
    assert(ops.subrange(0, k + 1) =~= ops.take(k + 1));
}

/// A run in which nothing fails performs every operation, in order.
pub proof fn plan_without_failure_is_carried_out<T>(
    ops: Seq<T>,
    errors: spec_fn(int) -> Option<Seq<char>>,
)
    requires
        forall|i: int| 0 <= i < ops.len() ==> #[trigger] errors(i) is None,
    ensures
        plan_run(ops, errors, 0, None) == (ops, None::<Seq<char>>),
{
    lemma_plan_run(ops, errors, 0, ops.len() as int);
    assert(ops.subrange(0, ops.len() as int) =~= ops);
}

// ---------------------------------------------------------------------------
// Publication
// ---------------------------------------------------------------------------

/// The journal of a transaction that has moved nothing yet.
pub open spec fn fresh_flags(old_bin: bool, old_lib: bool) -> JournalFlags {
    JournalFlags {
        old_bin_present: old_bin,
        old_lib_present: old_lib,
        new_bin_attempted: false,
        new_lib_attempted: false,
        validated: false,
    }
}

/// The operations that publish a staged runtime, in order: the journal, then the backup of every
/// component that exists, then each promotion, announced in the journal before it is tried.
pub open spec fn publish_ops(old_bin: bool, old_lib: bool) -> Seq<RuntimeOp> {
    let fresh = fresh_flags(old_bin, old_lib);
    let bin_tried = JournalFlags { new_bin_attempted: true, ..fresh };
    let lib_tried = JournalFlags { new_lib_attempted: true, ..bin_tried };
    seq![RuntimeOp::WriteJournal(fresh)] + (if old_bin {
        seq![RuntimeOp::BackUpBin]
    } else {
        Seq::empty()
    }) + (if old_lib {
        seq![RuntimeOp::BackUpLib]
    } else {
        Seq::empty()
    }) + seq![
        RuntimeOp::WriteJournal(bin_tried),
        RuntimeOp::PromoteBin,
        RuntimeOp::WriteJournal(lib_tried),
        RuntimeOp::PromoteLib,
    ]
}

/// What is left to do when an operation of the publication fails.
#[derive(Clone, Copy, PartialEq, Eq, Structural, Debug)]
pub enum PublishFailure {
    /// Nothing was moved and no journal was published: remove the stage and the backup directory.
    DiscardStage,
    /// Nothing was moved: remove the stage, the backup directory and the journal.
    DiscardTransaction,
    /// Something may have been moved: recover from the journal.
    Recover,
}

/// How each operation of a publication fails.
pub open spec fn publish_failure_of(op: RuntimeOp) -> PublishFailure {
    match op {
        RuntimeOp::WriteJournal(flags) if !flags.new_bin_attempted => PublishFailure::DiscardStage,
        RuntimeOp::BackUpBin => PublishFailure::DiscardTransaction,
        _ => PublishFailure::Recover,
    }
}

/// Decides what is left to do when `op` fails during publication.
pub fn publish_failure(op: RuntimeOp) -> (r: PublishFailure)
    ensures
        r == publish_failure_of(op),
{
    match op {
        RuntimeOp::WriteJournal(flags) => {
            if !flags.new_bin_attempted {
                PublishFailure::DiscardStage
            } else {
                PublishFailure::Recover
            }
        },
        RuntimeOp::BackUpBin => PublishFailure::DiscardTransaction,
        _ => PublishFailure::Recover,
    }
}

/// The steps by which an archive is staged for publication, in order. Nothing of the installed
/// runtime is touched by them.
#[derive(Clone, Copy, PartialEq, Eq, Structural, Debug)]
pub enum StageStep {
    /// Clear the staging directory's place.
    ClearStage,
    /// Create the staging directory.
    CreateStage,
    /// Extract the archive into it.
    Extract,
    /// See whether it holds a runtime, and plan the publication.
    Plan,
    /// Create the directory that the runtime is installed in.
    CreateRoot,
    /// Clear the place of the backup.
    ClearBackup,
    /// Create the directory of the backup.
    CreateBackup,
    /// The runtime can be published.
    Over,
}

/// The step that follows a step that succeeded.
pub open spec fn stage_following(step: StageStep) -> StageStep {
    match step {
        StageStep::ClearStage => StageStep::CreateStage,
        StageStep::CreateStage => StageStep::Extract,
        StageStep::Extract => StageStep::Plan,
        StageStep::Plan => StageStep::CreateRoot,
        StageStep::CreateRoot => StageStep::ClearBackup,
        StageStep::ClearBackup => StageStep::CreateBackup,
        StageStep::CreateBackup | StageStep::Over => StageStep::Over,
    }
}

/// The error of a step that failed with `error`.
pub open spec fn stage_error_text(step: StageStep, error: Seq<char>) -> Seq<char> {
    match step {
        StageStep::CreateStage => "failed to create runtime staging directory: "@ + error,
        StageStep::CreateRoot => "failed to create runtime install root: "@ + error,
        StageStep::CreateBackup => "failed to create runtime backup directory: "@ + error,
        _ => error,
    }
}

/// Why an archive was not staged, and whether the staging directory is removed.
pub struct StageFailure {
    pub remove_stage: bool,
    pub error: String,
}

/// Decides what follows a step of staging. `error` is why it failed, if it did. An archive that
/// cannot be extracted, or holds no runtime, leaves no staging directory.
pub fn stage_runtime_archive(step: StageStep, error: &Option<String>) -> (r: Result<
    StageStep,
    StageFailure,
>)
    ensures
        match error {
            None => r is Ok && r->Ok_0 == stage_following(step),
            Some(e) => {
                &&& r is Err
                &&& r->Err_0.remove_stage == (step is Extract || step is Plan)
                &&& r->Err_0.error@ == stage_error_text(step, e@)
            },
        },
{
    match error {
        None => Ok(
            match step {
                StageStep::ClearStage => StageStep::CreateStage,
                StageStep::CreateStage => StageStep::Extract,
                StageStep::Extract => StageStep::Plan,
                StageStep::Plan => StageStep::CreateRoot,
                StageStep::CreateRoot => StageStep::ClearBackup,
                StageStep::ClearBackup => StageStep::CreateBackup,
                StageStep::CreateBackup => StageStep::Over,
                StageStep::Over => StageStep::Over,
            },
        ),
        Some(e) => Err(
            StageFailure {
                remove_stage: step == StageStep::Extract || step == StageStep::Plan,
                error: match step {
                    StageStep::CreateStage => cat2(
                        "failed to create runtime staging directory: ",
                        e.as_str(),
                    ),
                    StageStep::CreateRoot => cat2(
                        "failed to create runtime install root: ",
                        e.as_str(),
                    ),
                    StageStep::CreateBackup => cat2(
                        "failed to create runtime backup directory: ",
                        e.as_str(),
                    ),
                    _ => e.clone(),
                },
            },
        ),
    }
}

/// The staged archive, as found on disk after extraction.
pub struct StagedArchive {
    pub archive_path: String,
    pub has_root: bool,
    pub has_bin: bool,
    pub has_lib: bool,
}

/// Plans the publication of a staged runtime. An archive without the `runtime` directory, or
/// without `bin` or `lib` in it, is refused.
pub fn install_runtime_archive(staged: &StagedArchive, old_bin: bool, old_lib: bool) -> (r: Result<
    Vec<RuntimeOp>,
    String,
>)
    ensures
        r is Ok <==> staged.has_root && staged.has_bin && staged.has_lib,
        r is Ok ==> r->Ok_0@ == publish_ops(old_bin, old_lib),
        !staged.has_root ==> r->Err_0@ == "Runtime archive '"@ + staged.archive_path@
            + "' does not contain expected 'runtime' directory."@,
        staged.has_root && r is Err ==> r->Err_0@ == "Runtime archive '"@ + staged.archive_path@
            + "' is missing expected 'bin' or 'lib' directories."@,
{
    if !staged.has_root {
        return Err(
            cat3(
                "Runtime archive '",
                staged.archive_path.as_str(),
                "' does not contain expected 'runtime' directory.",
            ),
        );
    }
    if !staged.has_bin || !staged.has_lib {
        return Err(
            cat3(
                "Runtime archive '",
                staged.archive_path.as_str(),
                "' is missing expected 'bin' or 'lib' directories.",
            ),
        );
    }
    let fresh = JournalFlags {
        old_bin_present: old_bin,
        old_lib_present: old_lib,
        new_bin_attempted: false,
        new_lib_attempted: false,
        validated: false,
    };
    let bin_tried = JournalFlags {
        old_bin_present: old_bin,
        old_lib_present: old_lib,
        new_bin_attempted: true,
        new_lib_attempted: false,
        validated: false,
    };
    let lib_tried = JournalFlags {
        old_bin_present: old_bin,
        old_lib_present: old_lib,
        new_bin_attempted: true,
        new_lib_attempted: true,
        validated: false,
    };
    let mut ops: Vec<RuntimeOp> = Vec::new();
    ops.push(RuntimeOp::WriteJournal(fresh));
    if old_bin {
        ops.push(RuntimeOp::BackUpBin);
    }
    if old_lib {
        ops.push(RuntimeOp::BackUpLib);
    }
    ops.push(RuntimeOp::WriteJournal(bin_tried));
    ops.push(RuntimeOp::PromoteBin);
    ops.push(RuntimeOp::WriteJournal(lib_tried));
    ops.push(RuntimeOp::PromoteLib);
    assert(ops@ =~= publish_ops(old_bin, old_lib));
    Ok(ops)
}

/// The text of the error for an operation of a publication that failed with `error`.
pub open spec fn publish_error_text(
    op: RuntimeOp,
    backup_dir: Seq<char>,
    install_root: Seq<char>,
    error: Seq<char>,
) -> Seq<char> {
    match op {
        RuntimeOp::BackUpBin => "failed to stage existing runtime binaries into backup '"@
            + backup_dir + "': "@ + error,
        RuntimeOp::BackUpLib => "failed to stage existing runtime libraries into backup '"@
            + backup_dir + "': "@ + error,
        RuntimeOp::PromoteBin | RuntimeOp::PromoteLib => "failed to promote staged runtime into '"@
            + install_root + "': "@ + error + "; previous runtime restored"@,
        _ => error,
    }
}

/// Words the error for an operation of a publication that failed with `error`.
pub fn publish_error(op: RuntimeOp, backup_dir: &str, install_root: &str, error: &str) -> (r:
    String)
    ensures
        r@ == publish_error_text(op, backup_dir@, install_root@, error@),
{
    match op {
        RuntimeOp::BackUpBin => cat4(
            "failed to stage existing runtime binaries into backup '",
            backup_dir,
            "': ",
            error,
        ),
        RuntimeOp::BackUpLib => cat4(
            "failed to stage existing runtime libraries into backup '",
            backup_dir,
            "': ",
            error,
        ),
        RuntimeOp::PromoteBin => cat5(
            "failed to promote staged runtime into '",
            install_root,
            "': ",
            error,
            "; previous runtime restored",
        ),
        RuntimeOp::PromoteLib => cat5(
            "failed to promote staged runtime into '",
            install_root,
            "': ",
            error,
            "; previous runtime restored",
        ),
        _ => error.to_owned(),
    }
}

// ---------------------------------------------------------------------------
// Recovery
// ---------------------------------------------------------------------------

/// The operations that clear the journal: the previous one first, so that the journal that is
/// in force never gives way to an older one.
pub open spec fn clear_ops() -> Seq<RuntimeOp> {
    seq![RuntimeOp::ClearFallbackJournal, RuntimeOp::ClearPrimaryJournal]
}

/// The operations that put one component back.
pub open spec fn restore_ops(
    in_backup: bool,
    attempted: bool,
    old_present: bool,
    remove: RuntimeOp,
    restore: RuntimeOp,
) -> Seq<RuntimeOp> {
    if in_backup {
        seq![remove, restore]
    } else if attempted && !old_present {
        seq![remove]
    } else {
        Seq::empty()
    }
}

/// The operations that recover a transaction whose journal has these flags.
pub open spec fn recovery_ops(flags: JournalFlags, bin_in_backup: bool, lib_in_backup: bool) -> Seq<
    RuntimeOp,
> {
    let cleanup = seq![RuntimeOp::RemoveStage, RuntimeOp::RemoveBackup] + clear_ops();
    if flags.validated {
        cleanup
    } else {
        restore_ops(
            bin_in_backup,
            flags.new_bin_attempted,
            flags.old_bin_present,
            RuntimeOp::RemoveBin,
            RuntimeOp::RestoreBin,
        ) + restore_ops(
            lib_in_backup,
            flags.new_lib_attempted,
            flags.old_lib_present,
            RuntimeOp::RemoveLib,
            RuntimeOp::RestoreLib,
        ) + cleanup
    }
}

/// Lists the operations that clear the journal.
pub fn clear_runtime_install_journal() -> (ops: Vec<RuntimeOp>)
    ensures
        ops@ == clear_ops(),
{
    let mut ops: Vec<RuntimeOp> = Vec::new();
    push_clear_ops(&mut ops);
    assert(ops@ =~= clear_ops());
    ops
}

fn push_clear_ops(ops: &mut Vec<RuntimeOp>)
    ensures
        final(ops)@ == old(ops)@ + clear_ops(),
{
    ops.push(RuntimeOp::ClearFallbackJournal);
    ops.push(RuntimeOp::ClearPrimaryJournal);
    assert(ops@ =~= old(ops)@ + clear_ops());
}

/// What clearing the journal does next.
pub enum ClearStep {
    /// Remove this path.
    Remove(String),
    /// Nothing more; this is the result.
    Ended(Result<(), String>),
}

/// What clearing the journal does next, as a value of texts.
pub enum ClearStepView {
    Remove(Seq<char>),
    Ended(Option<Seq<char>>),
}

impl View for ClearStep {
    type V = ClearStepView;

    open spec fn view(&self) -> ClearStepView {
        match self {
            ClearStep::Remove(path) => ClearStepView::Remove(path@),
            ClearStep::Ended(result) => ClearStepView::Ended(failure(*result)),
        }
    }
}

/// The next step of clearing the journal, after removals with these failures.
pub open spec fn clear_step(
    style: PathStyle,
    install_root: Seq<char>,
    failures: Seq<Option<Seq<char>>>,
) -> ClearStepView {
    if failures.len() == 0 {
        ClearStepView::Remove(previous_journal_path(style, install_root))
    } else if failures[0] is Some {
        ClearStepView::Ended(failures[0])
    } else if failures.len() == 1 {
        ClearStepView::Remove(journal_path(style, install_root))
    } else {
        ClearStepView::Ended(failures[1])
    }
}

/// The failures of a list of results.
pub open spec fn failures(results: Seq<Result<(), String>>) -> Seq<Option<Seq<char>>> {
    results.map_values(|r: Result<(), String>| failure(r))
}

/// Clears the journal by removals that the caller makes: the previous journal first, and the journal
/// itself only when that worked. `results` are those of the removals so far.
pub fn clear_runtime_install_journal_with(
    style: PathStyle,
    install_root: &str,
    results: &Vec<Result<(), String>>,
) -> (r: ClearStep)
    ensures
        r@ == clear_step(style, install_root@, failures(results@)),
{
    if results.len() == 0 {
        return ClearStep::Remove(runtime_install_journal_backup_path(style, install_root));
    }
    assert(failures(results@)[0] == failure(results@[0]));
    match &results[0] {
        Err(error) => ClearStep::Ended(Err(error.clone())),
        Ok(_) => {
            if results.len() == 1 {
                ClearStep::Remove(runtime_install_journal_path(style, install_root))
            } else {
                assert(failures(results@)[1] == failure(results@[1]));
                match &results[1] {
                    Err(error) => ClearStep::Ended(Err(error.clone())),
                    Ok(_) => ClearStep::Ended(Ok(())),
                }
            }
        },
    }
}

/// The paths that clearing the journal removes and what it returns, where `remove` says how each
/// removal fails.
pub open spec fn clear_run(
    style: PathStyle,
    install_root: Seq<char>,
    remove: spec_fn(Seq<char>) -> Option<Seq<char>>,
    so_far: Seq<Option<Seq<char>>>,
) -> (Seq<Seq<char>>, Option<Seq<char>>)
    decreases 2 - so_far.len(),
{
    match clear_step(style, install_root, so_far) {
        ClearStepView::Remove(path) => if so_far.len() < 2 {
            let rest = clear_run(style, install_root, remove, so_far.push(remove(path)));
            (seq![path] + rest.0, rest.1)
        } else {
            (Seq::empty(), None)
        },
        ClearStepView::Ended(result) => (Seq::empty(), result),
    }
}

/// Clearing the journal removes the previous journal first. Where that fails, the failure is the
/// result and the journal itself is left alone; else the journal is removed once, with the result of
/// that removal. Nothing else is removed.
pub proof fn journal_outlives_a_failed_clearing(
    style: PathStyle,
    install_root: Seq<char>,
    remove: spec_fn(Seq<char>) -> Option<Seq<char>>,
)
    ensures
        ({
            let run = clear_run(style, install_root, remove, Seq::empty());
            let previous = previous_journal_path(style, install_root);
            let journal = journal_path(style, install_root);
            match remove(previous) {
                Some(e) => run.0 == seq![previous] && run.1 == Some(e),
                None => run.0 == seq![previous, journal] && run.1 == remove(journal),
            }
        }),
{
    reveal_with_fuel(clear_run, 3);
    let previous = previous_journal_path(style, install_root);
    let one = Seq::<Option<Seq<char>>>::empty().push(remove(previous));
    let run = clear_run(style, install_root, remove, Seq::empty());
    if remove(previous) is Some {
        assert(run.0 =~= seq![previous]);
    } else {
        let journal = journal_path(style, install_root);
        assert(clear_run(style, install_root, remove, one).0 =~= seq![journal]);
        assert(run.0 =~= seq![previous, journal]);
    }
}

/// Plans the recovery of a transaction.
pub fn recovery_plan(flags: JournalFlags, bin_in_backup: bool, lib_in_backup: bool) -> (ops: Vec<
    RuntimeOp,
>)
    ensures
        ops@ == recovery_ops(flags, bin_in_backup, lib_in_backup),
{
    let mut ops: Vec<RuntimeOp> = Vec::new();
    if !flags.validated {
        if bin_in_backup {
            ops.push(RuntimeOp::RemoveBin);
            ops.push(RuntimeOp::RestoreBin);
        } else if flags.new_bin_attempted && !flags.old_bin_present {
            ops.push(RuntimeOp::RemoveBin);
        }
        if lib_in_backup {
            ops.push(RuntimeOp::RemoveLib);
            ops.push(RuntimeOp::RestoreLib);
        } else if flags.new_lib_attempted && !flags.old_lib_present {
            ops.push(RuntimeOp::RemoveLib);
        }
    }
    ops.push(RuntimeOp::RemoveStage);
    ops.push(RuntimeOp::RemoveBackup);
    push_clear_ops(&mut ops);
    assert(ops@ =~= recovery_ops(flags, bin_in_backup, lib_in_backup));
    ops
}

/// Chooses the journal that is in force: the journal itself, else the previous one.
pub fn runtime_journal_in_force(
    style: PathStyle,
    data_dir: &str,
    primary_is_file: bool,
    fallback_is_file: bool,
) -> (r: Option<String>)
    ensures
        r is Some <==> primary_is_file || fallback_is_file,
        primary_is_file ==> r->0@ == journal_path(style, data_dir@),
        !primary_is_file && fallback_is_file ==> r->0@ == previous_journal_path(style, data_dir@),
{
    if primary_is_file {
        Some(runtime_install_journal_path(style, data_dir))
    } else if fallback_is_file {
        Some(runtime_install_journal_backup_path(style, data_dir))
    } else {
        None
    }
}

/// What reading the journal in force gave.
pub enum JournalReading {
    /// There is no journal.
    Missing,
    /// The file could not be read.
    Unreadable { path: String, error: String },
    /// The file does not hold a journal.
    Malformed { path: String, error: String },
    /// The journal, and which components lie in its backup directory.
    Read { journal: RuntimeInstallJournal, bin_in_backup: bool, lib_in_backup: bool },
}

/// What recovery does about a journal reading.
pub open spec fn recovery_of(
    style: PathStyle,
    data_dir: Seq<char>,
    reading: JournalReading,
) -> Result<Seq<RuntimeOp>, Seq<char>> {
    match reading {
        JournalReading::Missing => Ok(Seq::empty()),
        JournalReading::Unreadable { path, error } => Err(
            "failed to read runtime install journal '"@ + path@ + "': "@ + error@,
        ),
        JournalReading::Malformed { path, error } => Err(
            "failed to parse runtime install journal '"@ + path@ + "': "@ + error@,
        ),
        JournalReading::Read { journal, bin_in_backup, lib_in_backup } => if !same_path(
            style,
            journal.install_root@,
            data_dir,
        ) {
            Err(
                "runtime install journal points to unexpected root '"@ + journal.install_root@
                    + "', expected '"@ + data_dir + "'; refusing recovery"@,
            )
        } else {
            Ok(recovery_ops(journal.spec_flags(), bin_in_backup, lib_in_backup))
        },
    }
}

/// Plans the recovery of an interrupted install: nothing without a journal, an error for a
/// journal that cannot be read or whose root is another path.
pub fn recover_interrupted_runtime_install(
    style: PathStyle,
    data_dir: &str,
    reading: &JournalReading,
) -> (r: Result<Vec<RuntimeOp>, String>)
    ensures
        match recovery_of(style, data_dir@, *reading) {
            Ok(ops) => r is Ok && r->Ok_0@ == ops,
            Err(text) => r is Err && r->Err_0@ == text,
        },
{
    match reading {
        JournalReading::Missing => Ok(Vec::new()),
        JournalReading::Unreadable { path, error } => Err(
            cat4(
                "failed to read runtime install journal '",
                path.as_str(),
                "': ",
                error.as_str(),
            ),
        ),
        JournalReading::Malformed { path, error } => Err(
            cat4(
                "failed to parse runtime install journal '",
                path.as_str(),
                "': ",
                error.as_str(),
            ),
        ),
        JournalReading::Read { journal, bin_in_backup, lib_in_backup } => {
            if !is_same_path(style, journal.install_root.as_str(), data_dir) {
                Err(
                    cat5(
                        "runtime install journal points to unexpected root '",
                        journal.install_root.as_str(),
                        "', expected '",
                        data_dir,
                        "'; refusing recovery",
                    ),
                )
            } else {
                Ok(recovery_plan(journal.flags(), *bin_in_backup, *lib_in_backup))
            }
        },
    }
}

/// The text of the error for an operation of a recovery that failed with `error`.
pub open spec fn recovery_error_text(
    style: PathStyle,
    op: RuntimeOp,
    backup_dir: Seq<char>,
    error: Seq<char>,
) -> Seq<char> {
    match op {
        RuntimeOp::RestoreBin => "failed to restore runtime binaries from '"@ + joined(
            style,
            backup_dir,
            "bin"@,
        ) + "': "@ + error,
        RuntimeOp::RestoreLib => "failed to restore runtime libraries from '"@ + joined(
            style,
            backup_dir,
            "lib"@,
        ) + "': "@ + error,
        _ => error,
    }
}

/// Words the error for an operation of a recovery that failed with `error`.
pub fn recovery_error(style: PathStyle, op: RuntimeOp, backup_dir: &str, error: &str) -> (r: String)
    ensures
        r@ == recovery_error_text(style, op, backup_dir@, error@),
{
    match op {
        RuntimeOp::RestoreBin => cat4(
            "failed to restore runtime binaries from '",
            join_path(style, backup_dir, "bin").as_str(),
            "': ",
            error,
        ),
        RuntimeOp::RestoreLib => cat4(
            "failed to restore runtime libraries from '",
            join_path(style, backup_dir, "lib").as_str(),
            "': ",
            error,
        ),
        _ => error.to_owned(),
    }
}

/// Plans the rollback of a published transaction: the recovery of its install root.
pub fn rollback_runtime_install_transaction(
    style: PathStyle,
    transaction: &RuntimeInstallTransaction,
    reading: &JournalReading,
) -> (r: Result<Vec<RuntimeOp>, String>)
    ensures
        match recovery_of(style, transaction.install_root@, *reading) {
            Ok(ops) => r is Ok && r->Ok_0@ == ops,
            Err(text) => r is Err && r->Err_0@ == text,
        },
{
    recover_interrupted_runtime_install(style, transaction.install_root.as_str(), reading)
}

// ---------------------------------------------------------------------------
// Commit
// ---------------------------------------------------------------------------

/// The operations of a commit: the validation marker comes before anything is deleted.
pub open spec fn commit_ops(flags: JournalFlags) -> Seq<RuntimeOp> {
    seq![
        RuntimeOp::WriteJournal(JournalFlags { validated: true, ..flags }),
        RuntimeOp::RemoveStage,
        RuntimeOp::RemoveBackup,
    ] + clear_ops()
}

/// Plans the commit of a validated transaction.
pub fn commit_runtime_install_transaction(transaction: &RuntimeInstallTransaction) -> (ops: Vec<
    RuntimeOp,
>)
    ensures
        ops@ == commit_ops(transaction.journal.spec_flags()),
{
    let flags: JournalFlags = transaction.journal.flags();
    let marked = JournalFlags {
        old_bin_present: flags.old_bin_present,
        old_lib_present: flags.old_lib_present,
        new_bin_attempted: flags.new_bin_attempted,
        new_lib_attempted: flags.new_lib_attempted,
        validated: true,
    };
    let mut ops: Vec<RuntimeOp> = Vec::new();
    ops.push(RuntimeOp::WriteJournal(marked));
    ops.push(RuntimeOp::RemoveStage);
    ops.push(RuntimeOp::RemoveBackup);
    push_clear_ops(&mut ops);
    assert(ops@ =~= commit_ops(transaction.journal.spec_flags()));
    ops
}

/// Where a commit stopped.
pub struct CommitStop {
    pub op: RuntimeOp,
    pub error: String,
    /// Whether the journal itself, read again after the failure, has the validation marker. The
    /// previous journal does not count.
    pub marker_published: bool,
}

/// The error of a commit that stopped: before the marker only when the marker itself could not
/// be written and is not found on disk.
pub open spec fn commit_stop_text(
    transaction: RuntimeInstallTransaction,
    op: RuntimeOp,
    error: Seq<char>,
) -> Seq<char> {
    match op {
        RuntimeOp::WriteJournal(_) => error,
        RuntimeOp::RemoveStage =>
            "runtime validation completed, but staging cleanup failed for '"@
            + transaction.stage_dir@ + "': "@ + error,
        RuntimeOp::RemoveBackup =>
            "runtime validation completed, but backup cleanup failed for '"@
            + transaction.backup_dir@ + "': "@ + error,
        _ => "runtime validation completed, but install journal cleanup failed: "@ + error,
    }
}

/// Reports how a commit ended.
pub fn commit_runtime_install_transaction_with_cleanup(
    transaction: &RuntimeInstallTransaction,
    stop: &Option<CommitStop>,
) -> (r: Result<(), RuntimeInstallCommitError>)
    ensures
        r is Ok <==> stop is None,
        stop matches Some(s) ==> {
            &&& r->Err_0.text() == commit_stop_text(*transaction, s.op, s.error@)
            &&& r->Err_0 is BeforeValidationMarker <==> (s.op is WriteJournal
                && !s.marker_published)
        },
{
    match stop {
        None => Ok(()),
        Some(s) => {
            match s.op {
                RuntimeOp::WriteJournal(_) => {
                    if s.marker_published {
                        Err(RuntimeInstallCommitError::AfterValidationMarker(s.error.clone()))
                    } else {
                        Err(RuntimeInstallCommitError::BeforeValidationMarker(s.error.clone()))
                    }
                },
                RuntimeOp::RemoveStage => Err(
                    RuntimeInstallCommitError::AfterValidationMarker(
                        cat4(
                            "runtime validation completed, but staging cleanup failed for '",
                            transaction.stage_dir.as_str(),
                            "': ",
                            s.error.as_str(),
                        ),
                    ),
                ),
                RuntimeOp::RemoveBackup => Err(
                    RuntimeInstallCommitError::AfterValidationMarker(
                        cat4(
                            "runtime validation completed, but backup cleanup failed for '",
                            transaction.backup_dir.as_str(),
                            "': ",
                            s.error.as_str(),
                        ),
                    ),
                ),
                _ => {
                    let mut text: String =
                        "runtime validation completed, but install journal cleanup failed: ".to_owned();
                    text.append(s.error.as_str());
                    Err(RuntimeInstallCommitError::AfterValidationMarker(text))
                },
            }
        },
    }
}

/// The place of a step of staging.
pub open spec fn stage_rank(step: StageStep) -> int {
    match step {
        StageStep::ClearStage => 0,
        StageStep::CreateStage => 1,
        StageStep::Extract => 2,
        StageStep::Plan => 3,
        StageStep::CreateRoot => 4,
        StageStep::ClearBackup => 5,
        StageStep::CreateBackup => 6,
        StageStep::Over => 7,
    }
}

/// Staging takes every step once and in its order.
pub proof fn staging_takes_every_step(step: StageStep)
    requires
        step !is Over,
    ensures
        stage_rank(stage_following(step)) == stage_rank(step) + 1,
{
}

/// A failed step of staging says what went wrong.
pub proof fn a_failed_staging_says_why(step: StageStep, error: Seq<char>)
    ensures
        ends_with(stage_error_text(step, error), error),
{
    let s = stage_error_text(step, error);
    assert(s.skip(s.len() - error.len()) =~= error);
}

/// A failed operation of a publication says what went wrong, and names the directory that it concerns.
pub proof fn a_failed_publication_says_why(
    op: RuntimeOp,
    backup_dir: Seq<char>,
    install_root: Seq<char>,
    error: Seq<char>,
)
    ensures
        contains(publish_error_text(op, backup_dir, install_root, error), error),
        op is BackUpBin || op is BackUpLib ==> contains(
            publish_error_text(op, backup_dir, install_root, error),
            backup_dir,
        ),
        op is PromoteBin || op is PromoteLib ==> contains(
            publish_error_text(op, backup_dir, install_root, error),
            install_root,
        ),
{
    if op is BackUpBin {
        lemma_two(
            "failed to stage existing runtime binaries into backup '"@,
            backup_dir,
            "': "@,
            error,
        );
    } else if op is BackUpLib {
        lemma_two(
            "failed to stage existing runtime libraries into backup '"@,
            backup_dir,
            "': "@,
            error,
        );
    } else if op is PromoteBin || op is PromoteLib {
        let promote = "failed to promote staged runtime into '"@;
        let tail = "; previous runtime restored"@;
        lemma_contains_middle(promote + install_root + "': "@, error, tail);
        lemma_contains_middle(promote, install_root, "': "@ + error + tail);
        assert(promote + install_root + ("': "@ + error + tail) =~= promote + install_root + "': "@
            + error + tail);
    } else {
        lemma_whole(error);
    }
}

/// A failed operation of a recovery says what went wrong, and names the place that it restores from.
pub proof fn a_failed_recovery_says_why(
    style: PathStyle,
    op: RuntimeOp,
    backup_dir: Seq<char>,
    error: Seq<char>,
)
    ensures
        ends_with(recovery_error_text(style, op, backup_dir, error), error),
        op is RestoreBin ==> contains(
            recovery_error_text(style, op, backup_dir, error),
            joined(style, backup_dir, "bin"@),
        ),
        op is RestoreLib ==> contains(
            recovery_error_text(style, op, backup_dir, error),
            joined(style, backup_dir, "lib"@),
        ),
{
    if op is RestoreBin {
        lemma_two(
            "failed to restore runtime binaries from '"@,
            joined(style, backup_dir, "bin"@),
            "': "@,
            error,
        );
    } else if op is RestoreLib {
        lemma_two(
            "failed to restore runtime libraries from '"@,
            joined(style, backup_dir, "lib"@),
            "': "@,
            error,
        );
    } else {
        lemma_whole(error);
    }
}

/// A commit that stopped says what went wrong, and names the directory that could not be removed.
pub proof fn a_stopped_commit_says_why(
    transaction: RuntimeInstallTransaction,
    op: RuntimeOp,
    error: Seq<char>,
)
    ensures
        ends_with(commit_stop_text(transaction, op, error), error),
        op is RemoveStage ==> contains(
            commit_stop_text(transaction, op, error),
            transaction.stage_dir@,
        ),
        op is RemoveBackup ==> contains(
            commit_stop_text(transaction, op, error),
            transaction.backup_dir@,
        ),
{
    if op is RemoveStage {
        lemma_two(
            "runtime validation completed, but staging cleanup failed for '"@,
            transaction.stage_dir@,
            "': "@,
            error,
        );
    } else if op is RemoveBackup {
        lemma_two(
            "runtime validation completed, but backup cleanup failed for '"@,
            transaction.backup_dir@,
            "': "@,
            error,
        );
    } else {
        let text = commit_stop_text(transaction, op, error);
        assert(text.skip(text.len() - error.len()) =~= error);
    }
}

proof fn lemma_whole(e: Seq<char>)
    ensures
        contains(e, e),
        ends_with(e, e),
{
    let none = Seq::<char>::empty();
    lemma_contains_middle(none, e, none);
    assert(none + e + none =~= e);
    assert(e.skip(0) =~= e);
}

proof fn lemma_two(a: Seq<char>, x: Seq<char>, b: Seq<char>, e: Seq<char>)
    ensures
        contains(a + x + b + e, x),
        contains(a + x + b + e, e),
        ends_with(a + x + b + e, e),
{
    let text = a + x + b + e;
    lemma_contains_middle(a, x, b + e);
    assert(a + x + (b + e) =~= text);
    lemma_contains_middle(a + x + b, e, Seq::empty());
    assert(a + x + b + e + Seq::empty() =~= text);
    assert(text.skip(text.len() - e.len()) =~= e);
}

/// Recovery is refused exactly for a journal that cannot be read, or that is of another install; the
/// refusal names the journal and what is wrong with it, or both roots. Without a journal there is nothing
/// to do.
#[verifier::rlimit(40)]
pub proof fn recovery_goes_by_its_own_journal(
    style: PathStyle,
    data_dir: Seq<char>,
    reading: JournalReading,
)
    ensures
        match reading {
            JournalReading::Missing => recovery_of(style, data_dir, reading) == Ok::<
                Seq<RuntimeOp>,
                Seq<char>,
            >(Seq::empty()),
            JournalReading::Unreadable { path, error } => recovery_of(style, data_dir, reading) is Err
                && contains(recovery_of(style, data_dir, reading)->Err_0, path@) && ends_with(
                recovery_of(style, data_dir, reading)->Err_0,
                error@,
            ),
            JournalReading::Malformed { path, error } => recovery_of(style, data_dir, reading) is Err
                && contains(recovery_of(style, data_dir, reading)->Err_0, path@) && ends_with(
                recovery_of(style, data_dir, reading)->Err_0,
                error@,
            ),
            JournalReading::Read { journal, bin_in_backup, lib_in_backup } => {
                &&& recovery_of(style, data_dir, reading) is Ok <==> same_path(
                    style,
                    journal.install_root@,
                    data_dir,
                )
                &&& recovery_of(style, data_dir, reading) matches Err(m) ==> contains(
                    m,
                    journal.install_root@,
                ) && contains(m, data_dir)
            },
        },
{
    match reading {
        JournalReading::Missing => {},
        JournalReading::Unreadable { path, error } => lemma_two(
            "failed to read runtime install journal '"@,
            path@,
            "': "@,
            error@,
        ),
        JournalReading::Malformed { path, error } => lemma_two(
            "failed to parse runtime install journal '"@,
            path@,
            "': "@,
            error@,
        ),
        JournalReading::Read { journal, bin_in_backup, lib_in_backup } => {
            let a = "runtime install journal points to unexpected root '"@;
            let b = "', expected '"@;
            let c = "'; refusing recovery"@;
            lemma_contains_middle(a, journal.install_root@, b + data_dir + c);
            assert(a + journal.install_root@ + (b + data_dir + c) =~= a + journal.install_root@ + b
                + data_dir + c);
            lemma_contains_middle(a + journal.install_root@ + b, data_dir, c);
        },
    }
}

/// The journal and the previous journal of an install lie in its root, under different names.
pub proof fn journals_lie_in_the_root(style: PathStyle, install_root: Seq<char>)
    ensures
        starts_with(journal_path(style, install_root), install_root),
        starts_with(previous_journal_path(style, install_root), install_root),
        journal_path(style, install_root) != previous_journal_path(style, install_root),
{
    reveal_strlit(".runtime-install-journal.json");
    reveal_strlit(".runtime-install-journal.previous.json");
    let a = ".runtime-install-journal.json"@;
    let b = ".runtime-install-journal.previous.json"@;
    assert(a.len() == 29 && b.len() == 38);
    assert(prefix_len(style, a) == 0 && !is_rooted(style, a));
    assert(prefix_len(style, b) == 0 && !is_rooted(style, b));
    a_join_is_the_directory_and_the_name(style, install_root, a);
    a_join_is_the_directory_and_the_name(style, install_root, b);
}

/// A publication that fails is recovered from its journal as soon as anything may have been moved: after
/// the first operation that moves something, and at it unless it was the first backup. Before the first
/// journal was written there is only the stage to discard.
pub proof fn what_was_moved_is_recovered(old_bin: bool, old_lib: bool, i: int, k: int)
    requires
        0 <= i < publish_ops(old_bin, old_lib).len(),
        0 <= k < i,
    ensures
        ({
            let moves = |op: RuntimeOp| op is BackUpBin || op is BackUpLib || op is PromoteBin || op
                is PromoteLib;
            let ops = publish_ops(old_bin, old_lib);
            &&& moves(ops[k]) ==> publish_failure_of(ops[i]) is Recover
            &&& publish_failure_of(ops[0]) is DiscardStage
            &&& publish_failure_of(ops[i]) !is DiscardStage
            &&& publish_failure_of(ops[i]) is DiscardTransaction <==> ops[i] is BackUpBin
        }),
{
    let ops = publish_ops(old_bin, old_lib);
    assert(ops[0] is WriteJournal);
    assert(old_bin ==> ops[1] is BackUpBin);
}

} // verus!
