//! What an interruption of the runtime transaction can leave behind, and why nothing is lost.
//!
//! [`Tree`] models the two published components, their backups and the two journal files. Every
//! operation of [`RuntimeOp`] has an effect on the tree, and a set of trees that it may leave
//! when it fails or is interrupted.

use vstd::prelude::*;
use vstd::string::*;

use crate::provisioning::runtime_install::{
    clear_ops, commit_ops, publish_ops, recovery_ops, restore_ops, JournalFlags, RuntimeOp,
};
use crate::text::{cat4, opt_view};

verus! {

/// What a component directory holds.
#[derive(Clone, Copy, PartialEq, Eq, Structural, Debug)]
pub enum Component {
    Absent,
    /// The component that was there before the transaction.
    Previous,
    /// The component that the transaction publishes.
    Replacement,
    /// What an interrupted removal leaves.
    Damaged,
}

/// The directories and files that the transaction touches, apart from its stage.
#[derive(Clone, Copy, PartialEq, Eq, Structural, Debug)]
pub struct Tree {
    pub bin: Component,
    pub lib: Component,
    pub backup_bin: Component,
    pub backup_lib: Component,
    pub primary: Option<JournalFlags>,
    pub fallback: Option<JournalFlags>,
}

/// The journal that recovery goes by.
pub open spec fn in_force(t: Tree) -> Option<JournalFlags> {
    if t.primary is Some {
        t.primary
    } else {
        t.fallback
    }
}

/// The tree after an operation that succeeded.
pub open spec fn after(op: RuntimeOp, t: Tree) -> Tree {
    match op {
        RuntimeOp::WriteJournal(flags) => Tree { primary: Some(flags), ..t },
        RuntimeOp::BackUpBin => Tree { bin: Component::Absent, backup_bin: t.bin, ..t },
        RuntimeOp::BackUpLib => Tree { lib: Component::Absent, backup_lib: t.lib, ..t },
        RuntimeOp::PromoteBin => Tree { bin: Component::Replacement, ..t },
        RuntimeOp::PromoteLib => Tree { lib: Component::Replacement, ..t },
        RuntimeOp::RemoveBin => Tree { bin: Component::Absent, ..t },
        RuntimeOp::RemoveLib => Tree { lib: Component::Absent, ..t },
        RuntimeOp::RestoreBin => Tree { bin: t.backup_bin, backup_bin: Component::Absent, ..t },
        RuntimeOp::RestoreLib => Tree { lib: t.backup_lib, backup_lib: Component::Absent, ..t },
        RuntimeOp::RemoveStage => t,
        RuntimeOp::RemoveBackup => Tree {
            backup_bin: Component::Absent,
            backup_lib: Component::Absent,
            ..t
        },
        RuntimeOp::ClearFallbackJournal => Tree { fallback: None, ..t },
        RuntimeOp::ClearPrimaryJournal => Tree { primary: None, ..t },
    }
}

/// What an interrupted removal may leave of a component.
pub open spec fn partly_removed(before: Component, now: Component) -> bool {
    now == before || now == Component::Absent || (before != Component::Absent && now
        == Component::Damaged)
}

/// Whether `u` may be found after `op` failed on `t` or was interrupted. Renames and the removal
/// of a file happen or do not; the removal of a directory can stop half-way; the journal may be
/// found at any step of its replacement.
pub open spec fn may_leave(op: RuntimeOp, t: Tree, u: Tree) -> bool {
    match op {
        RuntimeOp::WriteJournal(flags) => {
            &&& u == Tree { primary: u.primary, fallback: u.fallback, ..t }
            &&& {
                ||| u.primary == t.primary && (u.fallback == t.fallback || u.fallback is None)
                ||| t.primary is Some && u.primary is None && u.fallback == t.primary
                ||| u.primary == Some(flags) && (u.fallback == t.fallback || u.fallback
                    == t.primary || u.fallback is None)
            }
        },
        RuntimeOp::RemoveBin => u == (Tree { bin: u.bin, ..t }) && partly_removed(t.bin, u.bin),
        RuntimeOp::RemoveLib => u == (Tree { lib: u.lib, ..t }) && partly_removed(t.lib, u.lib),
        RuntimeOp::RemoveBackup => {
            &&& u == Tree { backup_bin: u.backup_bin, backup_lib: u.backup_lib, ..t }
            &&& partly_removed(t.backup_bin, u.backup_bin)
            &&& partly_removed(t.backup_lib, u.backup_lib)
        },
        _ => u == t || u == after(op, t),
    }
}

/// The tree after the first `k` operations of a list succeeded.
pub open spec fn run(ops: Seq<RuntimeOp>, t: Tree, k: int) -> Tree
    decreases k,
{
    if k <= 0 {
        t
    } else {
        after(ops[k - 1], run(ops, t, k - 1))
    }
}

/// The component that was there before.
pub open spec fn previous(present: bool) -> Component {
    if present {
        Component::Previous
    } else {
        Component::Absent
    }
}

/// A settled tree: the two components, no backup and no journal.
pub open spec fn settled(bin: Component, lib: Component) -> Tree {
    Tree {
        bin,
        lib,
        backup_bin: Component::Absent,
        backup_lib: Component::Absent,
        primary: None,
        fallback: None,
    }
}

/// The previous component is in its place or in the backup; where there was none, the journal
/// says so and says whether something new was put there.
pub open spec fn component_kept(
    now: Component,
    backup: Component,
    old_present: bool,
    attempted: bool,
) -> bool {
    if old_present {
        backup == Component::Previous || (backup == Component::Absent && now
            == Component::Previous)
    } else {
        backup == Component::Absent && (now == Component::Absent || attempted)
    }
}

/// The previous pair can be had back: it is in place, or the journal in force leads to it.
pub open spec fn previous_kept(t: Tree, old_bin: bool, old_lib: bool) -> bool {
    match in_force(t) {
        None => t == settled(previous(old_bin), previous(old_lib)),
        Some(f) => {
            &&& !f.validated
            &&& f.old_bin_present == old_bin
            &&& f.old_lib_present == old_lib
            &&& component_kept(t.bin, t.backup_bin, old_bin, f.new_bin_attempted)
            &&& component_kept(t.lib, t.backup_lib, old_lib, f.new_lib_attempted)
        },
    }
}

/// The replacement pair is in place, and no journal in force asks for a rollback.
pub open spec fn replacement_kept(t: Tree) -> bool {
    &&& t.bin == Component::Replacement
    &&& t.lib == Component::Replacement
    &&& in_force(t) matches Some(f) ==> f.validated
}

/// The operations that recovery plans for a tree, by the journal in force and by what lies in
/// the backup directory.
pub open spec fn recovery_for(t: Tree) -> Seq<RuntimeOp> {
    match in_force(t) {
        None => Seq::empty(),
        Some(f) => recovery_ops(
            f,
            t.backup_bin != Component::Absent,
            t.backup_lib != Component::Absent,
        ),
    }
}

/// While a runtime is being published, the previous one is never lost: whichever operation is
/// interrupted, and however, the previous pair is in place or the journal leads back to it.
pub proof fn publication_keeps_previous(old_bin: bool, old_lib: bool, k: int, u: Tree)
    requires
        0 <= k < publish_ops(old_bin, old_lib).len(),
        may_leave(
            publish_ops(old_bin, old_lib)[k],
            run(
                publish_ops(old_bin, old_lib),
                settled(previous(old_bin), previous(old_lib)),
                k,
            ),
            u,
        ),
    ensures
        previous_kept(u, old_bin, old_lib),
{
    reveal_with_fuel(run, 8);
}

/// Once everything is published, and before the commit, the replacement is in place and the
/// previous pair can still be had back.
pub proof fn publication_ends_recoverable(old_bin: bool, old_lib: bool)
    ensures
        ({
            let ops = publish_ops(old_bin, old_lib);
            let t = run(ops, settled(previous(old_bin), previous(old_lib)), ops.len() as int);
            &&& t.bin == Component::Replacement
            &&& t.lib == Component::Replacement
            &&& previous_kept(t, old_bin, old_lib)
        }),
{
    reveal_with_fuel(run, 8);
}

/// What makes an operation of a recovery harmless when it stops half-way.
pub open spec fn harmless(op: RuntimeOp, t: Tree, old_bin: bool, old_lib: bool) -> bool {
    let pair_back = t.bin == previous(old_bin) && t.lib == previous(old_lib) && t.backup_bin
        == Component::Absent && t.backup_lib == Component::Absent;
    match op {
        RuntimeOp::RemoveBin => in_force(t) is Some && (t.backup_bin == Component::Previous || (
        !old_bin && in_force(t)->0.new_bin_attempted)),
        RuntimeOp::RemoveLib => in_force(t) is Some && (t.backup_lib == Component::Previous || (
        !old_lib && in_force(t)->0.new_lib_attempted)),
        RuntimeOp::RestoreBin => in_force(t) is Some && t.backup_bin == Component::Previous,
        RuntimeOp::RestoreLib => in_force(t) is Some && t.backup_lib == Component::Previous,
        RuntimeOp::RemoveStage => true,
        RuntimeOp::RemoveBackup => pair_back,
        RuntimeOp::ClearFallbackJournal => pair_back,
        RuntimeOp::ClearPrimaryJournal => pair_back && t.fallback is None,
        _ => false,
    }
}

proof fn lemma_harmless(op: RuntimeOp, t: Tree, old_bin: bool, old_lib: bool, u: Tree)
    requires
        previous_kept(t, old_bin, old_lib),
        harmless(op, t, old_bin, old_lib),
        may_leave(op, t, u),
    ensures
        previous_kept(u, old_bin, old_lib),
{
}

/// After the two components are back, the rest of a recovery is harmless.
proof fn lemma_cleanup(ops: Seq<RuntimeOp>, t: Tree, at: int, old_bin: bool, old_lib: bool, k: int)
    requires
        0 <= at <= k < at + 4,
        ops.len() == at + 4,
        ops[at] == RuntimeOp::RemoveStage,
        ops[at + 1] == RuntimeOp::RemoveBackup,
        ops[at + 2] == RuntimeOp::ClearFallbackJournal,
        ops[at + 3] == RuntimeOp::ClearPrimaryJournal,
        previous_kept(run(ops, t, at), old_bin, old_lib),
        run(ops, t, at).bin == previous(old_bin),
        run(ops, t, at).lib == previous(old_lib),
        run(ops, t, at).backup_bin == Component::Absent,
        run(ops, t, at).backup_lib == Component::Absent,
    ensures
        previous_kept(run(ops, t, k), old_bin, old_lib),
        harmless(ops[k], run(ops, t, k), old_bin, old_lib),
{
    let t0 = run(ops, t, at);
    assert(run(ops, t, at + 1) == after(ops[at], t0));
    assert(run(ops, t, at + 2) == after(ops[at + 1], run(ops, t, at + 1)));
    assert(run(ops, t, at + 3) == after(ops[at + 2], run(ops, t, at + 2)));
    assert(k == at || k == at + 1 || k == at + 2 || k == at + 3);
}

/// Putting one component back is harmless, and changes nothing else.
proof fn lemma_restore(
    ops: Seq<RuntimeOp>,
    t: Tree,
    at: int,
    to: int,
    is_bin: bool,
    old_bin: bool,
    old_lib: bool,
    k: int,
)
    requires
        0 <= at <= to <= ops.len(),
        in_force(run(ops, t, at)) is Some,
        previous_kept(run(ops, t, at), old_bin, old_lib),
        ops.subrange(at, to) == if is_bin {
            restore_ops(
                run(ops, t, at).backup_bin != Component::Absent,
                in_force(run(ops, t, at))->0.new_bin_attempted,
                old_bin,
                RuntimeOp::RemoveBin,
                RuntimeOp::RestoreBin,
            )
        } else {
            restore_ops(
                run(ops, t, at).backup_lib != Component::Absent,
                in_force(run(ops, t, at))->0.new_lib_attempted,
                old_lib,
                RuntimeOp::RemoveLib,
                RuntimeOp::RestoreLib,
            )
        },
        at <= k <= to,
    ensures
        previous_kept(run(ops, t, k), old_bin, old_lib),
        in_force(run(ops, t, k)) == in_force(run(ops, t, at)),
        k < to ==> harmless(ops[k], run(ops, t, k), old_bin, old_lib),
        is_bin ==> run(ops, t, k).lib == run(ops, t, at).lib && run(ops, t, k).backup_lib == run(
            ops,
            t,
            at,
        ).backup_lib,
        !is_bin ==> run(ops, t, k).bin == run(ops, t, at).bin && run(ops, t, k).backup_bin == run(
            ops,
            t,
            at,
        ).backup_bin,
        k == to && is_bin ==> run(ops, t, k).bin == previous(old_bin) && run(ops, t, k).backup_bin
            == Component::Absent,
        k == to && !is_bin ==> run(ops, t, k).lib == previous(old_lib) && run(ops, t, k).backup_lib
            == Component::Absent,
{
    let part = ops.subrange(at, to);
    let t0 = run(ops, t, at);
    assert(part.len() == to - at);
    if to > at {
        assert(ops[at] == part[0]);
        assert(run(ops, t, at + 1) == after(ops[at], t0));
    }
    if to > at + 1 {
        assert(ops[at + 1] == part[1]);
        assert(run(ops, t, at + 2) == after(ops[at + 1], run(ops, t, at + 1)));
    }
    assert(to <= at + 2);
    assert(k == at || k == at + 1 || k == at + 2);
}

/// Recovery can itself be interrupted at any operation, and starts again with nothing lost.
pub proof fn recovery_can_be_interrupted(t: Tree, old_bin: bool, old_lib: bool, k: int, u: Tree)
    requires
        previous_kept(t, old_bin, old_lib),
        0 <= k < recovery_for(t).len(),
        may_leave(recovery_for(t)[k], run(recovery_for(t), t, k), u),
    ensures
        previous_kept(u, old_bin, old_lib),
{
    let ops = recovery_for(t);
    let f = in_force(t)->0;
    let bin = restore_ops(
        t.backup_bin != Component::Absent,
        f.new_bin_attempted,
        f.old_bin_present,
        RuntimeOp::RemoveBin,
        RuntimeOp::RestoreBin,
    );
    let lib = restore_ops(
        t.backup_lib != Component::Absent,
        f.new_lib_attempted,
        f.old_lib_present,
        RuntimeOp::RemoveLib,
        RuntimeOp::RestoreLib,
    );
    let a = bin.len() as int;
    let b = a + lib.len();
    assert(ops.subrange(0, a) =~= bin);
    assert(ops.subrange(a, b) =~= lib);
    assert(run(ops, t, 0) == t);
    if k < a {
        lemma_restore(ops, t, 0, a, true, old_bin, old_lib, k);
    } else {
        lemma_restore(ops, t, 0, a, true, old_bin, old_lib, a);
        if k < b {
            lemma_restore(ops, t, a, b, false, old_bin, old_lib, k);
        } else {
            lemma_restore(ops, t, a, b, false, old_bin, old_lib, b);
            lemma_cleanup(ops, t, b, old_bin, old_lib, k);
        }
    }
    lemma_harmless(ops[k], run(ops, t, k), old_bin, old_lib, u);
}

/// Recovery of an unvalidated transaction gives back exactly the previous pair, and leaves no
/// trace of the transaction.
#[verifier::rlimit(40)]
pub proof fn recovery_restores_previous(t: Tree, old_bin: bool, old_lib: bool)
    requires
        previous_kept(t, old_bin, old_lib),
    ensures
        run(recovery_for(t), t, recovery_for(t).len() as int) == settled(
            previous(old_bin),
            previous(old_lib),
        ),
{
    if in_force(t) is Some {
        let ops = recovery_for(t);
        let f = in_force(t)->0;
        let bin = restore_ops(
            t.backup_bin != Component::Absent,
            f.new_bin_attempted,
            f.old_bin_present,
            RuntimeOp::RemoveBin,
            RuntimeOp::RestoreBin,
        );
        let lib = restore_ops(
            t.backup_lib != Component::Absent,
            f.new_lib_attempted,
            f.old_lib_present,
            RuntimeOp::RemoveLib,
            RuntimeOp::RestoreLib,
        );
        let a = bin.len() as int;
        let b = a + lib.len();
        assert(ops.subrange(0, a) =~= bin);
        assert(ops.subrange(a, b) =~= lib);
        assert(run(ops, t, 0) == t);
        lemma_restore(ops, t, 0, a, true, old_bin, old_lib, a);
        lemma_restore(ops, t, a, b, false, old_bin, old_lib, b);
        assert(run(ops, t, b + 1) == after(ops[b], run(ops, t, b)));
        assert(run(ops, t, b + 2) == after(ops[b + 1], run(ops, t, b + 1)));
        assert(run(ops, t, b + 3) == after(ops[b + 2], run(ops, t, b + 2)));
        assert(run(ops, t, b + 4) == after(ops[b + 3], run(ops, t, b + 3)));
    }
}

/// A commit that is interrupted leaves either the replacement, to be kept, or, when the marker
/// was not written, the previous pair to be restored.
pub proof fn commit_is_atomic(t: Tree, old_bin: bool, old_lib: bool, k: int, u: Tree)
    requires
        t.bin == Component::Replacement,
        t.lib == Component::Replacement,
        t.primary is Some,
        previous_kept(t, old_bin, old_lib),
        0 <= k < commit_ops(t.primary->0).len(),
        may_leave(
            commit_ops(t.primary->0)[k],
            run(commit_ops(t.primary->0), t, k),
            u,
        ),
    ensures
        k > 0 ==> replacement_kept(u),
        k == 0 ==> replacement_kept(u) || previous_kept(u, old_bin, old_lib),
{
    reveal_with_fuel(run, 6);
}

/// A commit that finishes leaves the replacement pair and no trace of the transaction.
pub proof fn commit_settles_replacement(t: Tree, old_bin: bool, old_lib: bool)
    requires
        t.bin == Component::Replacement,
        t.lib == Component::Replacement,
        t.primary is Some,
        previous_kept(t, old_bin, old_lib),
    ensures
        ({
            let ops = commit_ops(t.primary->0);
            run(ops, t, ops.len() as int) == settled(Component::Replacement, Component::Replacement)
        }),
{
    reveal_with_fuel(run, 6);
}

/// Recovery never rolls a validated replacement back: it keeps the pair at every interruption,
/// and leaves no trace of the transaction when it finishes.
pub proof fn recovery_keeps_validated(t: Tree)
    requires
        replacement_kept(t),
        in_force(t) is Some,
    ensures
        run(recovery_for(t), t, recovery_for(t).len() as int) == settled(
            Component::Replacement,
            Component::Replacement,
        ),
        forall|k: int, u: Tree|
            0 <= k < recovery_for(t).len() && #[trigger] may_leave(
                recovery_for(t)[k],
                run(recovery_for(t), t, k),
                u,
            ) ==> replacement_kept(u),
{
    reveal_with_fuel(run, 6);
}

/// The list in which the journal is cleared matters: with the previous journal removed first, the
/// journal in force stays in force until there is none; removed last, it would come into force.
pub proof fn clearing_exposes_no_older_journal(t: Tree, k: int, u: Tree)
    requires
        t.primary is Some,
        0 <= k < 2,
        may_leave(
            clear_ops()[k],
            run(clear_ops(), t, k),
            u,
        ),
    ensures
        in_force(u) == in_force(t) || in_force(u) is None,
{
    reveal_with_fuel(run, 3);
}

// ---------------------------------------------------------------------------
// Replacing the journal
// ---------------------------------------------------------------------------

/// The steps by which a journal is replaced. Where renaming over an existing file is refused,
/// the journal that is there is kept as the previous one while the new one is renamed in.
#[derive(Clone, Copy, PartialEq, Eq, Structural, Debug)]
pub enum JournalWrite {
    /// Write the new journal to a temporary file.
    WriteTemp,
    /// Rename the temporary file over the journal.
    Publish,
    /// Remove the previous journal.
    DropFallback,
    /// Rename the journal to the previous one.
    KeepPrevious,
    /// Rename the temporary file to the journal's name, which is free now.
    PublishAgain,
    /// Remove the previous journal, which the new one replaces.
    DropPrevious,
    /// Rename the previous journal back.
    PutBack,
    /// Remove the temporary file.
    DiscardTemp,
    Done,
    Failed,
}

/// The step that follows a step.
pub open spec fn next_journal_write(step: JournalWrite, succeeded: bool) -> JournalWrite {
    match step {
        JournalWrite::WriteTemp => if succeeded { JournalWrite::Publish } else { JournalWrite::Failed },
        JournalWrite::Publish => if succeeded { JournalWrite::Done } else { JournalWrite::DropFallback },
        JournalWrite::DropFallback => if succeeded { JournalWrite::KeepPrevious } else { JournalWrite::Failed },
        JournalWrite::KeepPrevious => if succeeded { JournalWrite::PublishAgain } else { JournalWrite::DiscardTemp },
        JournalWrite::PublishAgain => if succeeded { JournalWrite::DropPrevious } else { JournalWrite::PutBack },
        JournalWrite::DropPrevious => if succeeded { JournalWrite::Done } else { JournalWrite::Failed },
        JournalWrite::PutBack => JournalWrite::DiscardTemp,
        JournalWrite::DiscardTemp => JournalWrite::Failed,
        JournalWrite::Done => JournalWrite::Done,
        JournalWrite::Failed => JournalWrite::Failed,
    }
}

/// Whether a write that has come to a step cannot succeed any more.
pub open spec fn ends_in_failure(step: JournalWrite) -> bool {
    step is PutBack || step is DiscardTemp || step is Failed
}

/// Chooses the step that follows a step of a journal write.
pub fn write_runtime_install_journal(step: JournalWrite, succeeded: bool) -> (r: JournalWrite)
    ensures
        r == next_journal_write(step, succeeded),
{
    match step {
        JournalWrite::WriteTemp => if succeeded { JournalWrite::Publish } else { JournalWrite::Failed },
        JournalWrite::Publish => if succeeded { JournalWrite::Done } else { JournalWrite::DropFallback },
        JournalWrite::DropFallback => if succeeded { JournalWrite::KeepPrevious } else { JournalWrite::Failed },
        JournalWrite::KeepPrevious => if succeeded { JournalWrite::PublishAgain } else { JournalWrite::DiscardTemp },
        JournalWrite::PublishAgain => if succeeded { JournalWrite::DropPrevious } else { JournalWrite::PutBack },
        JournalWrite::DropPrevious => if succeeded { JournalWrite::Done } else { JournalWrite::Failed },
        JournalWrite::PutBack => JournalWrite::DiscardTemp,
        JournalWrite::DiscardTemp => JournalWrite::Failed,
        JournalWrite::Done => JournalWrite::Done,
        JournalWrite::Failed => JournalWrite::Failed,
    }
}

/// Why a journal write fails on a step that failed with `error`. A step that fails without failing
/// the write gives no reason: the first rename, after which another way is tried, and what is done
/// after a failure.
pub open spec fn journal_write_error_text(
    step: JournalWrite,
    path: Seq<char>,
    temp: Seq<char>,
    previous_path: Seq<char>,
    error: Seq<char>,
) -> Option<Seq<char>> {
    match step {
        JournalWrite::WriteTemp => Some(
            "failed to write runtime install journal '"@ + temp + "': "@ + error,
        ),
        JournalWrite::DropFallback => Some(error),
        JournalWrite::KeepPrevious | JournalWrite::PublishAgain => Some(
            "failed to publish runtime install journal '"@ + path + "': "@ + error,
        ),
        JournalWrite::DropPrevious => Some(
            "failed to remove previous runtime install journal '"@ + previous_path + "': "@ + error,
        ),
        _ => None,
    }
}

/// A step that fails gives a reason exactly when the write can no longer succeed because of it: the
/// first rename does not, nor does what is done after a failure.
pub proof fn journal_failures_have_one_reason(
    step: JournalWrite,
    path: Seq<char>,
    temp: Seq<char>,
    previous_path: Seq<char>,
    error: Seq<char>,
)
    ensures
        journal_write_error_text(step, path, temp, previous_path, error) is Some <==> ends_in_failure(
            next_journal_write(step, false),
        ) && !ends_in_failure(step),
{
}

/// Words why a journal write fails on a step that failed with `error`, if it does.
pub fn journal_write_error(
    step: JournalWrite,
    path: &str,
    temp: &str,
    previous_path: &str,
    error: &str,
) -> (r: Option<String>)
    ensures
        opt_view(r) == journal_write_error_text(step, path@, temp@, previous_path@, error@),
{
    match step {
        JournalWrite::WriteTemp => Some(
            cat4("failed to write runtime install journal '", temp, "': ", error),
        ),
        JournalWrite::DropFallback => Some(error.to_owned()),
        JournalWrite::KeepPrevious => Some(
            cat4("failed to publish runtime install journal '", path, "': ", error),
        ),
        JournalWrite::PublishAgain => Some(
            cat4("failed to publish runtime install journal '", path, "': ", error),
        ),
        JournalWrite::DropPrevious => Some(
            cat4(
                "failed to remove previous runtime install journal '",
                previous_path,
                "': ",
                error,
            ),
        ),
        _ => None,
    }
}

/// The effect of a step that succeeded on the two journal files.
pub open spec fn journal_effect(step: JournalWrite, new: JournalFlags, t: Tree) -> Tree {
    match step {
        JournalWrite::Publish | JournalWrite::PublishAgain => Tree { primary: Some(new), ..t },
        JournalWrite::DropFallback | JournalWrite::DropPrevious => Tree { fallback: None, ..t },
        JournalWrite::KeepPrevious => Tree { primary: None, fallback: t.primary, ..t },
        JournalWrite::PutBack => Tree { primary: t.fallback, fallback: None, ..t },
        _ => t,
    }
}

/// The step reached, and the tree, when the steps so far succeeded or failed as `results` says.
pub open spec fn journal_run(results: Seq<bool>, new: JournalFlags, t: Tree) -> (JournalWrite, Tree)
    decreases results.len(),
{
    if results.len() == 0 {
        (JournalWrite::WriteTemp, t)
    } else {
        let (step, u) = journal_run(results.drop_last(), new, t);
        (
            next_journal_write(step, results.last()),
            if results.last() { journal_effect(step, new, u) } else { u },
        )
    }
}

/// What holds of the journal files before each step of a write, `old` being the journal that was
/// there, if one was.
pub open spec fn journal_files_at(step: JournalWrite, new: JournalFlags, t: Tree, u: Tree) -> bool {
    let old = t.primary;
    &&& u == Tree { primary: u.primary, fallback: u.fallback, ..t }
    &&& match step {
        JournalWrite::WriteTemp | JournalWrite::Publish | JournalWrite::DropFallback => u == t,
        JournalWrite::KeepPrevious => u.primary == old && u.fallback is None,
        JournalWrite::PublishAgain | JournalWrite::PutBack => u.primary is None && u.fallback == old,
        JournalWrite::DropPrevious => u.primary == Some(new) && u.fallback == old,
        JournalWrite::DiscardTemp => in_force(u) == old,
        JournalWrite::Done => u.primary == Some(new) && (u.fallback == t.fallback || u.fallback
            is None),
        JournalWrite::Failed => in_force(u) == old || u.primary == Some(new),
    }
}

proof fn lemma_journal_files(results: Seq<bool>, new: JournalFlags, t: Tree)
    requires
        t.primary is Some || t.fallback is None,
    ensures
        journal_files_at(journal_run(results, new, t).0, new, t, journal_run(results, new, t).1),
    decreases results.len(),
{
    if results.len() > 0 {
        lemma_journal_files(results.drop_last(), new, t);
    }
}

/// While a journal is written, the one that was in force stays in force, if there was one, until
/// the new one is: whichever steps fail and wherever the process stops. A write that reports
/// success has put the new one in force. (A previous journal that stands alone, as after a stop
/// between two renames, is recovered from before a journal is written.)
pub proof fn journal_write_keeps_a_journal(results: Seq<bool>, new: JournalFlags, t: Tree)
    requires
        t.primary is Some || t.fallback is None,
    ensures
        ({
            let (step, u) = journal_run(results, new, t);
            &&& in_force(u) == t.primary || in_force(u) == Some(new)
            &&& step is Done ==> in_force(u) == Some(new)
            &&& may_leave(RuntimeOp::WriteJournal(new), t, u)
        }),
{
    lemma_journal_files(results, new, t);
    lemma_journal_leaves(results, new, t);
}

proof fn lemma_journal_leaves(results: Seq<bool>, new: JournalFlags, t: Tree)
    requires
        t.primary is Some || t.fallback is None,
    ensures
        may_leave(RuntimeOp::WriteJournal(new), t, journal_run(results, new, t).1),
    decreases results.len(),
{
    lemma_journal_files(results, new, t);
    if results.len() > 0 {
        lemma_journal_leaves(results.drop_last(), new, t);
        lemma_journal_files(results.drop_last(), new, t);
    }
}

} // verus!
