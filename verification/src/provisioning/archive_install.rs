//! How extracted archives are put in place: the encoders, the diarization assets, and the swap of
//! the diarization runtime.

use vstd::prelude::*;
use vstd::string::*;

use crate::paths::{join_path, joined, PathStyle};
use crate::provisioning::runtime_recovery::{previous, Component};
use crate::text::{
    cat5, contains, ends_with, lemma_contains_middle, lemma_found, starts_with, text_starts_with,
    views,
};

verus! {

// ---------------------------------------------------------------------------
// Encoders
// ---------------------------------------------------------------------------

/// The steps by which an encoder is installed, in order. It is extracted beside the models and
/// renamed into place, so that a directory that looks installed is complete.
#[derive(Clone, Copy, PartialEq, Eq, Structural, Debug)]
pub enum EncoderStep {
    /// Clear the place of the stage.
    ClearStage,
    /// Clear the place of the backup.
    ClearBackup,
    /// Make the stage.
    CreateStage,
    /// Extract the archive into the stage.
    Extract,
    /// Find the encoder's directory in the stage.
    FindRoot,
    /// Rename the encoder that is there to the backup.
    BackUp,
    /// Rename the staged encoder into place.
    Promote,
    /// Remove the stage and the backup; a failure is only logged.
    Tidy,
}

/// The paths of an encoder install.
pub struct EncoderPaths {
    pub archive: String,
    pub encoder_dir: String,
    pub destination: String,
    pub backup_dir: String,
    pub staged: String,
}

/// What follows a step of an encoder install.
pub enum EncoderNext {
    Go(EncoderStep),
    /// The install failed.
    Fail {
        /// Remove the stage.
        remove_stage: bool,
        /// Rename the backup back.
        restore_backup: bool,
        message: String,
    },
}

/// The step that follows a step that succeeded. There is something to back up only when the
/// encoder existed.
pub open spec fn encoder_following(step: EncoderStep, had_existing: bool) -> EncoderStep {
    match step {
        EncoderStep::ClearStage => EncoderStep::ClearBackup,
        EncoderStep::ClearBackup => EncoderStep::CreateStage,
        EncoderStep::CreateStage => EncoderStep::Extract,
        EncoderStep::Extract => EncoderStep::FindRoot,
        EncoderStep::FindRoot => if had_existing { EncoderStep::BackUp } else { EncoderStep::Promote },
        EncoderStep::BackUp => EncoderStep::Promote,
        EncoderStep::Promote => EncoderStep::Tidy,
        EncoderStep::Tidy => EncoderStep::Tidy,
    }
}

/// The message of a step of an encoder install that failed with `error`.
pub open spec fn encoder_error_text(
    step: EncoderStep,
    paths: EncoderPaths,
    error: Seq<char>,
) -> Seq<char> {
    match step {
        EncoderStep::CreateStage => "failed to create encoder staging directory: "@ + error,
        EncoderStep::FindRoot => "Encoder archive '"@ + paths.archive@
            + "' does not contain expected '"@ + paths.encoder_dir@ + "' directory."@,
        EncoderStep::BackUp => "failed to stage existing encoder '"@ + paths.destination@
            + "' into backup '"@ + paths.backup_dir@ + "': "@ + error,
        EncoderStep::Promote => "failed to promote staged encoder '"@ + paths.staged@ + "' into '"@
            + paths.destination@ + "': "@ + error,
        _ => error,
    }
}

fn encoder_error(step: EncoderStep, paths: &EncoderPaths, error: &str) -> (r: String)
    ensures
        r@ == encoder_error_text(step, *paths, error@),
{
    match step {
        EncoderStep::CreateStage => {
            let mut m: String = "failed to create encoder staging directory: ".to_owned();
            m.append(error);
            m
        },
        EncoderStep::FindRoot => cat5(
            "Encoder archive '",
            paths.archive.as_str(),
            "' does not contain expected '",
            paths.encoder_dir.as_str(),
            "' directory.",
        ),
        EncoderStep::BackUp => {
            let mut m: String = cat5(
                "failed to stage existing encoder '",
                paths.destination.as_str(),
                "' into backup '",
                paths.backup_dir.as_str(),
                "': ",
            );
            m.append(error);
            m
        },
        EncoderStep::Promote => {
            let mut m: String = cat5(
                "failed to promote staged encoder '",
                paths.staged.as_str(),
                "' into '",
                paths.destination.as_str(),
                "': ",
            );
            m.append(error);
            m
        },
        _ => error.to_owned(),
    }
}

/// Decides what follows a step of an encoder install. `failed` is the error of a step that failed.
pub fn install_coreml_encoder_archive(
    step: EncoderStep,
    failed: &Option<String>,
    had_existing: bool,
    paths: &EncoderPaths,
) -> (r: EncoderNext)
    ensures
        failed is None ==> r == EncoderNext::Go(encoder_following(step, had_existing)),
        failed is Some && step is Tidy ==> r == EncoderNext::Go(EncoderStep::Tidy),
        failed is Some && step !is Tidy ==> {
            &&& r is Fail
            &&& r->remove_stage == (step is Extract || step is FindRoot || step is BackUp || step
                is Promote)
            &&& r->restore_backup == (step is Promote && had_existing)
            &&& r->message@ == encoder_error_text(step, *paths, failed->0@)
        },
{
    match failed {
        None => EncoderNext::Go(
            match step {
                EncoderStep::ClearStage => EncoderStep::ClearBackup,
                EncoderStep::ClearBackup => EncoderStep::CreateStage,
                EncoderStep::CreateStage => EncoderStep::Extract,
                EncoderStep::Extract => EncoderStep::FindRoot,
                EncoderStep::FindRoot => {
                    if had_existing {
                        EncoderStep::BackUp
                    } else {
                        EncoderStep::Promote
                    }
                },
                EncoderStep::BackUp => EncoderStep::Promote,
                EncoderStep::Promote => EncoderStep::Tidy,
                EncoderStep::Tidy => EncoderStep::Tidy,
            },
        ),
        Some(error) => {
            if step == EncoderStep::Tidy {
                return EncoderNext::Go(EncoderStep::Tidy);
            }
            EncoderNext::Fail {
                remove_stage: step == EncoderStep::Extract || step == EncoderStep::FindRoot || step
                    == EncoderStep::BackUp || step == EncoderStep::Promote,
                restore_backup: step == EncoderStep::Promote && had_existing,
                message: encoder_error(step, paths, error.as_str()),
            }
        },
    }
}

/// The encoder's place and its backup.
pub struct EncoderTree {
    pub destination: Component,
    pub backup: Component,
}

/// The tree when a step is reached, all steps before it having succeeded.
pub open spec fn encoder_tree_at(step: EncoderStep, had_existing: bool) -> EncoderTree {
    let old = previous(had_existing);
    match step {
        EncoderStep::Promote => EncoderTree {
            destination: Component::Absent,
            backup: old,
        },
        EncoderStep::Tidy => EncoderTree { destination: Component::Replacement, backup: old },
        _ => EncoderTree { destination: old, backup: Component::Absent },
    }
}

/// The tree after what a failure at a step asks for.
pub open spec fn encoder_tree_after_failure(step: EncoderStep, had_existing: bool) -> EncoderTree {
    let t = encoder_tree_at(step, had_existing);
    if step is Promote && had_existing {
        EncoderTree { destination: t.backup, backup: Component::Absent }
    } else {
        t
    }
}

/// An encoder that was installed is never lost: whichever step fails, it is in its place again
/// once the failure has been dealt with.
pub proof fn failed_encoder_install_keeps_encoder(step: EncoderStep, had_existing: bool)
    requires
        step !is Tidy,
    ensures
        encoder_tree_after_failure(step, had_existing).destination
            == previous(had_existing),
{
}

// ---------------------------------------------------------------------------
// Diarization assets
// ---------------------------------------------------------------------------

/// The steps by which a diarization asset is put in the stage, in order.
#[derive(Clone, Copy, PartialEq, Eq, Structural, Debug)]
pub enum PyannoteArchiveStep {
    ClearStage,
    CreateStage,
    Extract,
    FindRoot,
    ClearDestination,
    CreateParent,
    Promote,
    RemoveStage,
    Over,
}

/// The step that follows a step that succeeded.
pub open spec fn archive_following(step: PyannoteArchiveStep) -> PyannoteArchiveStep {
    match step {
        PyannoteArchiveStep::ClearStage => PyannoteArchiveStep::CreateStage,
        PyannoteArchiveStep::CreateStage => PyannoteArchiveStep::Extract,
        PyannoteArchiveStep::Extract => PyannoteArchiveStep::FindRoot,
        PyannoteArchiveStep::FindRoot => PyannoteArchiveStep::ClearDestination,
        PyannoteArchiveStep::ClearDestination => PyannoteArchiveStep::CreateParent,
        PyannoteArchiveStep::CreateParent => PyannoteArchiveStep::Promote,
        PyannoteArchiveStep::Promote => PyannoteArchiveStep::RemoveStage,
        PyannoteArchiveStep::RemoveStage => PyannoteArchiveStep::Over,
        PyannoteArchiveStep::Over => PyannoteArchiveStep::Over,
    }
}

/// The message of a step that failed with `error`.
pub open spec fn archive_error_text(
    step: PyannoteArchiveStep,
    archive: Seq<char>,
    expected_root: Seq<char>,
    error: Seq<char>,
) -> Seq<char> {
    match step {
        PyannoteArchiveStep::CreateStage => "failed to create pyannote staging directory: "@
            + error,
        PyannoteArchiveStep::FindRoot => "Pyannote archive '"@ + archive
            + "' does not contain expected '"@ + expected_root + "' directory."@,
        PyannoteArchiveStep::CreateParent => "failed to create pyannote destination parent: "@
            + error,
        PyannoteArchiveStep::Promote => "failed to move staged pyannote asset into place: "@
            + error,
        _ => error,
    }
}

/// Decides what follows a step: the next one, or the error with whether the stage is removed.
pub fn install_pyannote_archive(
    step: PyannoteArchiveStep,
    failed: &Option<String>,
    archive: &str,
    expected_root: &str,
) -> (r: Result<PyannoteArchiveStep, (bool, String)>)
    ensures
        failed is None ==> r == Result::<PyannoteArchiveStep, (bool, String)>::Ok(
            archive_following(step),
        ),
        failed matches Some(error) ==> {
            &&& r is Err
            &&& r->Err_0.0 == (step is Extract || step is FindRoot)
            &&& r->Err_0.1@ == archive_error_text(step, archive@, expected_root@, error@)
        },
{
    match failed {
        None => Ok(
            match step {
                PyannoteArchiveStep::ClearStage => PyannoteArchiveStep::CreateStage,
                PyannoteArchiveStep::CreateStage => PyannoteArchiveStep::Extract,
                PyannoteArchiveStep::Extract => PyannoteArchiveStep::FindRoot,
                PyannoteArchiveStep::FindRoot => PyannoteArchiveStep::ClearDestination,
                PyannoteArchiveStep::ClearDestination => PyannoteArchiveStep::CreateParent,
                PyannoteArchiveStep::CreateParent => PyannoteArchiveStep::Promote,
                PyannoteArchiveStep::Promote => PyannoteArchiveStep::RemoveStage,
                PyannoteArchiveStep::RemoveStage => PyannoteArchiveStep::Over,
                PyannoteArchiveStep::Over => PyannoteArchiveStep::Over,
            },
        ),
        Some(error) => {
            let message: String = match step {
                PyannoteArchiveStep::CreateStage => {
                    let mut m: String = "failed to create pyannote staging directory: ".to_owned();
                    m.append(error.as_str());
                    m
                },
                PyannoteArchiveStep::FindRoot => cat5(
                    "Pyannote archive '",
                    archive,
                    "' does not contain expected '",
                    expected_root,
                    "' directory.",
                ),
                PyannoteArchiveStep::CreateParent => {
                    let mut m: String = "failed to create pyannote destination parent: ".to_owned();
                    m.append(error.as_str());
                    m
                },
                PyannoteArchiveStep::Promote => {
                    let mut m: String =
                        "failed to move staged pyannote asset into place: ".to_owned();
                    m.append(error.as_str());
                    m
                },
                _ => error.clone(),
            };
            Err(
                (
                    step == PyannoteArchiveStep::Extract || step == PyannoteArchiveStep::FindRoot,
                    message,
                ),
            )
        },
    }
}

// ---------------------------------------------------------------------------
// The swap of the diarization runtime
// ---------------------------------------------------------------------------

/// An operation of the swap.
#[derive(Clone, Copy, PartialEq, Eq, Structural, Debug)]
pub enum SwapOp {
    /// Rename the runtime directory to the backup.
    BackUp,
    /// Remove what is at the runtime directory's place.
    Clear,
    /// Rename the stage into place.
    Promote,
    /// Rename the backup back.
    Restore,
}

/// Decides whether the runtime directory is moved to a backup: when a reset is asked for and there
/// is a directory.
pub fn prepare_pyannote_runtime_swap(reset_existing_install: bool, is_dir: bool) -> (r: bool)
    ensures
        r == (reset_existing_install && is_dir),
{
    reset_existing_install && is_dir
}

/// The operations that swap a stage in. A directory is always backed up first; anything else in
/// its place is removed.
pub open spec fn promote_ops(is_dir: bool, exists_at_all: bool) -> Seq<SwapOp> {
    if is_dir {
        seq![SwapOp::BackUp, SwapOp::Promote]
    } else if exists_at_all {
        seq![SwapOp::Clear, SwapOp::Promote]
    } else {
        seq![SwapOp::Promote]
    }
}

/// The operations that undo a swap.
pub open spec fn rollback_ops(has_backup: bool, exists_at_all: bool) -> Seq<SwapOp> {
    if !has_backup {
        Seq::empty()
    } else if exists_at_all {
        seq![SwapOp::Clear, SwapOp::Restore]
    } else {
        seq![SwapOp::Restore]
    }
}

/// Lists the operations that swap a stage in.
pub fn promote_staged_pyannote_runtime(
    reset_existing_install: bool,
    is_dir: bool,
    exists_at_all: bool,
) -> (ops: Vec<SwapOp>)
    ensures
        ops@ == promote_ops(is_dir, exists_at_all),
{
    let mut ops: Vec<SwapOp> = Vec::new();
    if prepare_pyannote_runtime_swap(reset_existing_install || is_dir, is_dir) {
        ops.push(SwapOp::BackUp);
    } else if exists_at_all {
        ops.push(SwapOp::Clear);
    }
    ops.push(SwapOp::Promote);
    assert(ops@ =~= promote_ops(is_dir, exists_at_all));
    ops
}

/// Lists the operations that undo a swap: without a backup there is nothing to undo.
pub fn rollback_pyannote_runtime_swap(has_backup: bool, exists_at_all: bool) -> (ops: Vec<SwapOp>)
    ensures
        ops@ == rollback_ops(has_backup, exists_at_all),
{
    let mut ops: Vec<SwapOp> = Vec::new();
    if has_backup {
        if exists_at_all {
            ops.push(SwapOp::Clear);
        }
        ops.push(SwapOp::Restore);
    }
    assert(ops@ =~= rollback_ops(has_backup, exists_at_all));
    ops
}

/// The message of a stage that could not be swapped in, with what became of the previous runtime.
pub fn promotion_error(
    stage_dir: &str,
    runtime_dir: &str,
    error: &str,
    rollback_error: &Option<String>,
) -> (r: String)
    ensures
        r@ == "failed to promote staged pyannote runtime '"@ + stage_dir@ + "' into '"@
            + runtime_dir@ + "': "@ + error@ + "; "@ + (match rollback_error {
            None => "previous runtime restored from backup"@,
            Some(e) => "failed to restore previous runtime backup: "@ + e@,
        }),
{
    let mut m: String = cat5(
        "failed to promote staged pyannote runtime '",
        stage_dir,
        "' into '",
        runtime_dir,
        "': ",
    );
    m.append(error);
    m.append("; ");
    match rollback_error {
        None => {
            m.append("previous runtime restored from backup");
        },
        Some(e) => {
            let mut note: String = "failed to restore previous runtime backup: ".to_owned();
            note.append(e.as_str());
            m.append(note.as_str());
        },
    }
    m
}

/// The runtime directory and its backup.
pub struct SwapTree {
    pub runtime: Component,
    pub backup: Component,
}

/// The tree after an operation of the swap.
pub open spec fn swap_after(op: SwapOp, t: SwapTree) -> SwapTree {
    match op {
        SwapOp::BackUp => SwapTree { runtime: Component::Absent, backup: t.runtime },
        SwapOp::Clear => SwapTree { runtime: Component::Absent, backup: t.backup },
        SwapOp::Promote => SwapTree { runtime: Component::Replacement, backup: t.backup },
        SwapOp::Restore => SwapTree { runtime: t.backup, backup: Component::Absent },
    }
}

/// The tree after a list of operations of the swap.
pub open spec fn swap_run(ops: Seq<SwapOp>, t: SwapTree) -> SwapTree
    decreases ops.len(),
{
    if ops.len() == 0 {
        t
    } else {
        swap_run(ops.skip(1), swap_after(ops[0], t))
    }
}

/// A swap that is undone, before or after its stage was renamed in, gives back the runtime that was
/// there; one that stands has put the stage in its place and kept the runtime as a backup.
pub proof fn undone_swap_restores_runtime(promoted: bool)
    ensures
        ({
            let t0 = SwapTree { runtime: Component::Previous, backup: Component::Absent };
            let swapped = swap_run(promote_ops(true, true), t0);
            let stopped = if promoted { swapped } else { swap_after(SwapOp::BackUp, t0) };
            &&& swapped == SwapTree {
                runtime: Component::Replacement,
                backup: Component::Previous,
            }
            &&& swap_run(rollback_ops(true, stopped.runtime != Component::Absent), stopped) == t0
        }),
{
    reveal_with_fuel(swap_run, 3);
    assert(promote_ops(true, true).skip(1) =~= seq![SwapOp::Promote]);
    assert(promote_ops(true, true).skip(1).skip(1) =~= Seq::empty());
    assert(rollback_ops(true, true).skip(1) =~= seq![SwapOp::Restore]);
    assert(rollback_ops(true, true).skip(1).skip(1) =~= Seq::empty());
    assert(rollback_ops(true, false).skip(1) =~= Seq::empty());
}

/// The message of an operation of the swap that failed with `error`. A failed promotion is worded
/// by [`promotion_error`], and a failed removal words itself.
pub open spec fn swap_error_text(
    op: SwapOp,
    runtime_dir: Seq<char>,
    backup_dir: Seq<char>,
    error: Seq<char>,
) -> Seq<char> {
    match op {
        SwapOp::BackUp => "failed to stage existing pyannote runtime '"@ + runtime_dir
            + "' into backup '"@ + backup_dir + "': "@ + error,
        SwapOp::Restore => "failed to restore pyannote runtime backup '"@ + backup_dir
            + "' into '"@ + runtime_dir + "': "@ + error,
        SwapOp::Clear | SwapOp::Promote => error,
    }
}

/// Words the failure of an operation of the swap.
pub fn swap_error(op: SwapOp, runtime_dir: &str, backup_dir: &str, error: &str) -> (r: String)
    ensures
        r@ == swap_error_text(op, runtime_dir@, backup_dir@, error@),
{
    match op {
        SwapOp::BackUp => {
            let mut m: String = cat5(
                "failed to stage existing pyannote runtime '",
                runtime_dir,
                "' into backup '",
                backup_dir,
                "': ",
            );
            m.append(error);
            m
        },
        SwapOp::Restore => {
            let mut m: String = cat5(
                "failed to restore pyannote runtime backup '",
                backup_dir,
                "' into '",
                runtime_dir,
                "': ",
            );
            m.append(error);
            m
        },
        SwapOp::Clear => error.to_owned(),
        SwapOp::Promote => error.to_owned(),
    }
}

/// The places of a diarization runtime.
pub struct PyannoteWorkdir {
    pub runtime_dir: String,
    pub python_dir: String,
    pub model_dir: String,
    pub manifest_path: String,
}

/// Whether an entry of the runtime directory is left over from an install that did not finish.
pub open spec fn is_leftover(name: Seq<char>) -> bool {
    starts_with(name, ".download-"@) || starts_with(name, ".stage-"@)
}

/// The paths of the entries that are left over, in the order of the listing.
pub open spec fn leftover_paths(
    style: PathStyle,
    runtime_dir: Seq<char>,
    entries: Seq<Seq<char>>,
) -> Seq<Seq<char>>
    decreases entries.len(),
{
    if entries.len() == 0 {
        Seq::empty()
    } else {
        let front = leftover_paths(style, runtime_dir, entries.drop_last());
        if is_leftover(entries.last()) {
            front.push(joined(style, runtime_dir, entries.last()))
        } else {
            front
        }
    }
}

/// The paths that are removed after an install that did not finish, in order: the interpreter, the
/// model, the manifest, and what is left over in the runtime directory.
pub open spec fn workdir_paths(
    style: PathStyle,
    workdir: PyannoteWorkdir,
    entries: Seq<Seq<char>>,
) -> Seq<Seq<char>> {
    seq![workdir.python_dir@, workdir.model_dir@, workdir.manifest_path@] + leftover_paths(
        style,
        workdir.runtime_dir@,
        entries,
    )
}

/// Lists the paths that are removed after an install that did not finish. `entries` is the listing
/// of the runtime directory, empty where there is none.
pub fn cleanup_pyannote_workdir(
    style: PathStyle,
    workdir: &PyannoteWorkdir,
    entries: &Vec<String>,
) -> (r: Vec<String>)
    ensures
        views(r@) == workdir_paths(style, *workdir, views(entries@)),
{
    let mut out: Vec<String> = Vec::new();
    out.push(workdir.python_dir.clone());
    out.push(workdir.model_dir.clone());
    out.push(workdir.manifest_path.clone());
    let ghost fixed = seq![workdir.python_dir@, workdir.model_dir@, workdir.manifest_path@];
    let ghost all = views(entries@);
    let ghost dir = workdir.runtime_dir@;
    let mut i: usize = 0;
    assert(views(out@) =~= fixed + leftover_paths(style, dir, all.take(0)));
    while i < entries.len()
        invariant
            i <= entries@.len(),
            all == views(entries@),
            dir == workdir.runtime_dir@,
            views(out@) == fixed + leftover_paths(style, dir, all.take(i as int)),
        decreases entries@.len() - i,
    {
        let ghost before = views(out@);
        let name: &str = entries[i].as_str();
        assert(all.take(i + 1).drop_last() =~= all.take(i as int));
        assert(all.take(i + 1).last() == name@);
        if text_starts_with(name, ".download-") || text_starts_with(name, ".stage-") {
            let path: String = join_path(style, workdir.runtime_dir.as_str(), name);
            out.push(path);
            assert(views(out@) =~= before.push(joined(style, dir, name@)));
        }
        assert(views(out@) =~= fixed + leftover_paths(style, dir, all.take(i + 1)));
        i = i + 1;
    }
    assert(all.take(i as int) =~= all);
    out
}

/// Nothing but the interpreter, the model, the manifest and what is left over is removed, and what
/// is left over is removed whatever else the directory holds.
pub proof fn workdir_keeps_other_entries(
    style: PathStyle,
    runtime_dir: Seq<char>,
    entries: Seq<Seq<char>>,
)
    ensures
        forall|path: Seq<char>|
            leftover_paths(style, runtime_dir, entries).contains(path) <==> exists|i: int|
                0 <= i < entries.len() && is_leftover(entries[i]) && #[trigger] joined(
                    style,
                    runtime_dir,
                    entries[i],
                ) == path,
    decreases entries.len(),
{
    let paths = leftover_paths(style, runtime_dir, entries);
    if entries.len() > 0 {
        let front = entries.drop_last();
        let before = leftover_paths(style, runtime_dir, front);
        workdir_keeps_other_entries(style, runtime_dir, front);
        let last = entries.len() - 1;
        assert forall|path: Seq<char>| paths.contains(path) implies exists|i: int|
            0 <= i < entries.len() && is_leftover(entries[i]) && #[trigger] joined(
                style,
                runtime_dir,
                entries[i],
            ) == path by {
            if before.contains(path) {
                let i = choose|i: int|
                    0 <= i < front.len() && is_leftover(front[i]) && #[trigger] joined(
                        style,
                        runtime_dir,
                        front[i],
                    ) == path;
                assert(entries[i] == front[i]);
                assert(joined(style, runtime_dir, entries[i]) == path);
            } else {
                let k = choose|k: int| 0 <= k < paths.len() && paths[k] == path;
                if k < before.len() {
                    assert(before[k] == path);
                }
                assert(joined(style, runtime_dir, entries[last]) == path);
            }
        }
        assert forall|path: Seq<char>|
            (exists|i: int|
                0 <= i < entries.len() && is_leftover(entries[i]) && #[trigger] joined(
                    style,
                    runtime_dir,
                    entries[i],
                ) == path) implies paths.contains(path) by {
            let i = choose|i: int|
                0 <= i < entries.len() && is_leftover(entries[i]) && #[trigger] joined(
                    style,
                    runtime_dir,
                    entries[i],
                ) == path;
            if i < last {
                assert(front[i] == entries[i]);
                assert(joined(style, runtime_dir, front[i]) == path);
                assert(before.contains(path));
                let k = choose|k: int| 0 <= k < before.len() && before[k] == path;
                assert(paths[k] == path);
            } else {
                assert(paths[before.len() as int] == path);
            }
        }
    }
}

proof fn lemma_names_both(a: Seq<char>, x: Seq<char>, b: Seq<char>, y: Seq<char>, c: Seq<char>)
    ensures
        contains(a + x + b + y + c, x),
        contains(a + x + b + y + c, y),
{
    lemma_contains_middle(a, x, b + y + c);
    assert(a + x + (b + y + c) =~= a + x + b + y + c);
    lemma_contains_middle(a + x + b, y, c);
}

proof fn lemma_still(a: Seq<char>, e: Seq<char>, x: Seq<char>)
    requires
        contains(a, x),
    ensures
        contains(a + e, x),
{
    let i = choose|i: int| 0 <= i <= a.len() && starts_with(#[trigger] a.skip(i), x);
    assert forall|k: int| 0 <= k < x.len() implies #[trigger] x[k] == (a + e)[i + k] by {
        assert(a.skip(i).take(x.len() as int)[k] == x[k]);
    }
    lemma_found(a + e, x, i);
}

/// A failed step of an encoder install says what went wrong, except that a missing directory has no error
/// to tell; and it names the places that it concerns.
pub proof fn a_failed_encoder_step_says_why(
    step: EncoderStep,
    paths: EncoderPaths,
    error: Seq<char>,
)
    ensures
        step !is FindRoot ==> ends_with(encoder_error_text(step, paths, error), error),
        step is FindRoot ==> contains(encoder_error_text(step, paths, error), paths.archive@)
            && contains(encoder_error_text(step, paths, error), paths.encoder_dir@),
        step is BackUp ==> contains(encoder_error_text(step, paths, error), paths.destination@)
            && contains(encoder_error_text(step, paths, error), paths.backup_dir@),
        step is Promote ==> contains(encoder_error_text(step, paths, error), paths.staged@)
            && contains(encoder_error_text(step, paths, error), paths.destination@),
{
    let text = encoder_error_text(step, paths, error);
    if step !is FindRoot {
        assert(text.skip(text.len() - error.len()) =~= error);
    }
    match step {
        EncoderStep::FindRoot => lemma_names_both(
            "Encoder archive '"@,
            paths.archive@,
            "' does not contain expected '"@,
            paths.encoder_dir@,
            "' directory."@,
        ),
        EncoderStep::BackUp => {
            let a = "failed to stage existing encoder '"@;
            let b = "' into backup '"@;
            lemma_names_both(a, paths.destination@, b, paths.backup_dir@, "': "@);
            let head = a + paths.destination@ + b + paths.backup_dir@ + "': "@;
            lemma_still(head, error, paths.destination@);
            lemma_still(head, error, paths.backup_dir@);
        },
        EncoderStep::Promote => {
            let a = "failed to promote staged encoder '"@;
            let b = "' into '"@;
            lemma_names_both(a, paths.staged@, b, paths.destination@, "': "@);
            let head = a + paths.staged@ + b + paths.destination@ + "': "@;
            lemma_still(head, error, paths.destination@);
            lemma_still(head, error, paths.staged@);
        },
        _ => {},
    }
}

/// A failed step of a diarization asset says what went wrong, except that a missing directory names the
/// archive and the directory.
pub proof fn a_failed_archive_step_says_why(
    step: PyannoteArchiveStep,
    archive: Seq<char>,
    expected_root: Seq<char>,
    error: Seq<char>,
)
    ensures
        step !is FindRoot ==> ends_with(
            archive_error_text(step, archive, expected_root, error),
            error,
        ),
        step is FindRoot ==> contains(
            archive_error_text(step, archive, expected_root, error),
            archive,
        ) && contains(archive_error_text(step, archive, expected_root, error), expected_root),
{
    let text = archive_error_text(step, archive, expected_root, error);
    if step is FindRoot {
        lemma_names_both(
            "Pyannote archive '"@,
            archive,
            "' does not contain expected '"@,
            expected_root,
            "' directory."@,
        );
    } else {
        assert(text.skip(text.len() - error.len()) =~= error);
    }
}

/// The place of a step in an encoder install.
pub open spec fn encoder_rank(step: EncoderStep) -> int {
    match step {
        EncoderStep::ClearStage => 0,
        EncoderStep::ClearBackup => 1,
        EncoderStep::CreateStage => 2,
        EncoderStep::Extract => 3,
        EncoderStep::FindRoot => 4,
        EncoderStep::BackUp => 5,
        EncoderStep::Promote => 6,
        EncoderStep::Tidy => 7,
    }
}

/// An encoder install takes every step once and in its order, but for the backup of an encoder that was
/// not there.
pub proof fn an_encoder_install_takes_every_step(step: EncoderStep, had_existing: bool)
    requires
        step !is Tidy,
    ensures
        encoder_rank(encoder_following(step, had_existing)) == encoder_rank(step) + if step is FindRoot
            && !had_existing {
            2int
        } else {
            1
        },
{
}

/// The place of a step in the install of a diarization asset.
pub open spec fn archive_rank(step: PyannoteArchiveStep) -> int {
    match step {
        PyannoteArchiveStep::ClearStage => 0,
        PyannoteArchiveStep::CreateStage => 1,
        PyannoteArchiveStep::Extract => 2,
        PyannoteArchiveStep::FindRoot => 3,
        PyannoteArchiveStep::ClearDestination => 4,
        PyannoteArchiveStep::CreateParent => 5,
        PyannoteArchiveStep::Promote => 6,
        PyannoteArchiveStep::RemoveStage => 7,
        PyannoteArchiveStep::Over => 8,
    }
}

/// The install of a diarization asset takes every step once and in its order.
pub proof fn an_archive_install_takes_every_step(step: PyannoteArchiveStep)
    requires
        step !is Over,
    ensures
        archive_rank(archive_following(step)) == archive_rank(step) + 1,
{
}

/// A failed operation of the swap says what went wrong; one that moves the runtime names both places.
pub proof fn a_failed_swap_says_why(
    op: SwapOp,
    runtime_dir: Seq<char>,
    backup_dir: Seq<char>,
    error: Seq<char>,
)
    ensures
        ends_with(swap_error_text(op, runtime_dir, backup_dir, error), error),
        op is BackUp || op is Restore ==> contains(
            swap_error_text(op, runtime_dir, backup_dir, error),
            runtime_dir,
        ) && contains(swap_error_text(op, runtime_dir, backup_dir, error), backup_dir),
{
    let text = swap_error_text(op, runtime_dir, backup_dir, error);
    assert(text.skip(text.len() - error.len()) =~= error);
    let a = "failed to stage existing pyannote runtime '"@;
    let b = "' into backup '"@;
    lemma_names_both(a, runtime_dir, b, backup_dir, "': "@);
    let c = "failed to restore pyannote runtime backup '"@;
    let d = "' into '"@;
    lemma_names_both(c, backup_dir, d, runtime_dir, "': "@);
    lemma_still(a + runtime_dir + b + backup_dir + "': "@, error, runtime_dir);
    lemma_still(a + runtime_dir + b + backup_dir + "': "@, error, backup_dir);
    lemma_still(c + backup_dir + d + runtime_dir + "': "@, error, runtime_dir);
    lemma_still(c + backup_dir + d + runtime_dir + "': "@, error, backup_dir);
}

/// A swap leaves the stage in its place whatever was there, and a runtime that was there in the backup.
pub proof fn a_swap_puts_the_stage_in_place(is_dir: bool, exists_at_all: bool, t: SwapTree)
    requires
        is_dir ==> exists_at_all,
    ensures
        swap_run(promote_ops(is_dir, exists_at_all), t).runtime == Component::Replacement,
        is_dir ==> swap_run(promote_ops(is_dir, exists_at_all), t).backup == t.runtime,
        !is_dir ==> swap_run(promote_ops(is_dir, exists_at_all), t).backup == t.backup,
        !is_dir && exists_at_all ==> promote_ops(is_dir, exists_at_all)[0] is Clear,
{
    reveal_with_fuel(swap_run, 3);
    let ops = promote_ops(is_dir, exists_at_all);
    assert(ops.len() == 2 ==> ops.skip(1) =~= seq![SwapOp::Promote]);
    assert(ops.len() == 2 ==> ops.skip(1).skip(1) =~= Seq::empty());
    assert(ops.len() == 1 ==> ops.skip(1) =~= Seq::empty());
}

/// What an unfinished install leaves is told from the rest by how its name begins.
pub proof fn leftovers_are_hidden_stages_and_downloads(name: Seq<char>)
    ensures
        is_leftover(".download-"@ + name),
        is_leftover(".stage-"@ + name),
        is_leftover(name) ==> name.len() > 0 && name[0] == '.',
{
    reveal_strlit(".download-");
    reveal_strlit(".stage-");
    let d = ".download-"@;
    let s = ".stage-"@;
    assert((d + name).take(d.len() as int) =~= d);
    assert((s + name).take(s.len() as int) =~= s);
    if starts_with(name, d) {
        assert(name.take(d.len() as int)[0] == name[0]);
    }
    if starts_with(name, s) {
        assert(name.take(s.len() as int)[0] == name[0]);
    }
}

} // verus!
