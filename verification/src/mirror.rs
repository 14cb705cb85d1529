//! Mirroring policy: which destination-tree operation a normalized
//! change owes, what to do after each copy or delete attempt, and the
//! source-to-destination pairing of the initial bulk sync. The copies
//! and deletions themselves are the caller's; the policy here decides
//! retries, warnings and fatal stops.

use vstd::prelude::*;
use crate::bytes::clone_bytes;
use crate::bytes::contains_seq;
use crate::bytes::spliced;
use crate::events::Action;
use crate::paths::host_path_to_target;
use crate::paths::spec_inbox_root;
use crate::paths::spec_mirror_root;

verus! {

/// The destination-tree operation a normalized change calls for.
#[derive(Clone, Copy, Debug, PartialEq, Eq, Structural)]
pub enum MirrorOp {
    /// Copy the source file to its translated mirror path.
    Copy,
    /// Delete the file at the translated mirror path.
    Delete,
}

/// The operation owed for each action.
pub open spec fn spec_op_for_action(action: Action) -> MirrorOp {
    match action {
        Action::Added => MirrorOp::Copy,
        Action::Modified => MirrorOp::Copy,
        Action::Removed => MirrorOp::Delete,
    }
}

/// `Added` and `Modified` changes copy the source file to its mirror
/// path; `Removed` changes delete the mirror file.
pub fn op_for_action(action: &Action) -> (r: MirrorOp)
    ensures
        r == spec_op_for_action(*action),
{
    match action {
        Action::Added => MirrorOp::Copy,
        Action::Modified => MirrorOp::Copy,
        Action::Removed => MirrorOp::Delete,
    }
}

/// How a copy attempt against the destination ended, as the caller
/// observed it.
#[derive(Clone, Copy, Debug, PartialEq, Eq, Structural)]
pub enum CopyOutcome {
    Copied,
    /// The copy failed because a destination parent directory is missing.
    MissingParent,
    /// The copy failed for any other reason.
    Failed,
}

/// How a delete attempt against the destination ended.
#[derive(Clone, Copy, Debug, PartialEq, Eq, Structural)]
pub enum DeleteOutcome {
    Deleted,
    /// The destination file was already absent.
    AlreadyAbsent,
    /// The deletion failed for any other reason.
    Failed,
}

/// Whether an operation belongs to the initial bulk sync, whose per-file
/// failures are collected as warnings, or to live reconciliation.
#[derive(Clone, Copy, Debug, PartialEq, Eq, Structural)]
pub enum SyncPhase {
    Initial,
    Live,
}

/// What the caller must do next after an attempt.
#[derive(Clone, Copy, Debug, PartialEq, Eq, Structural)]
pub enum MirrorStep {
    /// The operation is complete.
    Done,
    /// Create the full destination directory path, then retry the copy
    /// exactly once.
    CreateDirsAndRetry,
    /// Report a warning and carry on with the remaining work.
    Warn,
    /// Stop the process: a core invariant about the environment failed.
    Fatal,
}

/// An unrecoverable attempt: a warning during the initial bulk sync,
/// fatal during live reconciliation.
pub open spec fn spec_fail_step(phase: SyncPhase) -> MirrorStep {
    match phase {
        SyncPhase::Initial => MirrorStep::Warn,
        SyncPhase::Live => MirrorStep::Fatal,
    }
}

/// What follows a copy attempt: success is done; a first failure for a
/// missing destination parent creates the directories and retries
/// exactly once; any failure after that retry, and any failure not
/// attributable to a missing parent, is unrecoverable.
pub open spec fn spec_copy_step(outcome: CopyOutcome, retried: bool, phase: SyncPhase) -> MirrorStep {
    match outcome {
        CopyOutcome::Copied => MirrorStep::Done,
        CopyOutcome::MissingParent => if !retried {
            MirrorStep::CreateDirsAndRetry
        } else {
            spec_fail_step(phase)
        },
        CopyOutcome::Failed => spec_fail_step(phase),
    }
}

/// The step owed after a copy attempt; `retried` says whether this
/// attempt already followed a created destination directory path.
pub fn copy_step(outcome: &CopyOutcome, retried: bool, phase: &SyncPhase) -> (r: MirrorStep)
    ensures
        r == spec_copy_step(*outcome, retried, *phase),
{
    match outcome {
        CopyOutcome::Copied => MirrorStep::Done,
        CopyOutcome::MissingParent => {
            if !retried {
                MirrorStep::CreateDirsAndRetry
            } else {
                fail_step(phase)
            }
        },
        CopyOutcome::Failed => fail_step(phase),
    }
}

fn fail_step(phase: &SyncPhase) -> (r: MirrorStep)
    ensures
        r == spec_fail_step(*phase),
{
    match phase {
        SyncPhase::Initial => MirrorStep::Warn,
        SyncPhase::Live => MirrorStep::Fatal,
    }
}

/// What follows a delete attempt: success is done; an already-absent
/// destination, like any other delete failure, is a warning, never
/// fatal.
pub open spec fn spec_delete_step(outcome: DeleteOutcome) -> MirrorStep {
    match outcome {
        DeleteOutcome::Deleted => MirrorStep::Done,
        DeleteOutcome::AlreadyAbsent => MirrorStep::Warn,
        DeleteOutcome::Failed => MirrorStep::Warn,
    }
}

/// The step owed after a delete attempt.
pub fn delete_step(outcome: &DeleteOutcome) -> (r: MirrorStep)
    ensures
        r == spec_delete_step(*outcome),
{
    match outcome {
        DeleteOutcome::Deleted => MirrorStep::Done,
        DeleteOutcome::AlreadyAbsent => MirrorStep::Warn,
        DeleteOutcome::Failed => MirrorStep::Warn,
    }
}

/// The initial bulk sync's work list: each scanned file paired with its
/// translated mirror path. Every scanned path lies under the inbox, so
/// its text contains the inbox root.
pub fn initial_sync_plan(files: &Vec<Vec<u8>>) -> (r: Vec<(Vec<u8>, Vec<u8>)>)
    requires
        forall|i: int| 0 <= i < files@.len() ==> contains_seq(
            (#[trigger] files@[i])@,
            spec_inbox_root(),
        ),
    ensures
        r@.len() == files@.len(),
        forall|i: int| #![auto] 0 <= i < r@.len() ==> r@[i].0@ == files@[i]@ && r@[i].1@
            == spliced(files@[i]@, spec_inbox_root(), spec_mirror_root()),
{
    let mut r: Vec<(Vec<u8>, Vec<u8>)> = Vec::new();
    let mut i: usize = 0;
    while i < files.len()
        invariant
            i <= files@.len(),
            r@.len() == i,
            forall|j: int| 0 <= j < files@.len() ==> contains_seq(
                (#[trigger] files@[j])@,
                spec_inbox_root(),
            ),
            forall|j: int| #![auto] 0 <= j < i ==> r@[j].0@ == files@[j]@ && r@[j].1@
                == spliced(files@[j]@, spec_inbox_root(), spec_mirror_root()),
        decreases files@.len() - i,
    {
        let src = clone_bytes(&files[i]);
        let dst = host_path_to_target(&files[i]);
        r.push((src, dst));
        i += 1;
    }
    r
}

} // verus!
