use fm::events::{Action, EventKind, PathStatus, SubKind};
use fm::index::FileIndex;
use fm::mirror::{
    copy_step, delete_step, initial_sync_plan, op_for_action, CopyOutcome, DeleteOutcome,
    MirrorOp, MirrorStep, SyncPhase,
};

#[test]
fn added_and_modified_copy_removed_deletes() {
    assert_eq!(op_for_action(&Action::Added), MirrorOp::Copy);
    assert_eq!(op_for_action(&Action::Modified), MirrorOp::Copy);
    assert_eq!(op_for_action(&Action::Removed), MirrorOp::Delete);
}

#[test]
fn copy_success_is_done() {
    assert_eq!(copy_step(&CopyOutcome::Copied, false, &SyncPhase::Live), MirrorStep::Done);
    assert_eq!(copy_step(&CopyOutcome::Copied, true, &SyncPhase::Initial), MirrorStep::Done);
}

#[test]
fn missing_parent_is_retried_exactly_once() {
    assert_eq!(
        copy_step(&CopyOutcome::MissingParent, false, &SyncPhase::Live),
        MirrorStep::CreateDirsAndRetry
    );
    assert_eq!(copy_step(&CopyOutcome::MissingParent, true, &SyncPhase::Live), MirrorStep::Fatal);
    assert_eq!(
        copy_step(&CopyOutcome::MissingParent, true, &SyncPhase::Initial),
        MirrorStep::Warn
    );
}

#[test]
fn other_copy_failures_are_fatal_live_warned_initially() {
    assert_eq!(copy_step(&CopyOutcome::Failed, false, &SyncPhase::Live), MirrorStep::Fatal);
    assert_eq!(copy_step(&CopyOutcome::Failed, false, &SyncPhase::Initial), MirrorStep::Warn);
}

#[test]
fn delete_of_absent_file_is_a_warning() {
    assert_eq!(delete_step(&DeleteOutcome::Deleted), MirrorStep::Done);
    assert_eq!(delete_step(&DeleteOutcome::AlreadyAbsent), MirrorStep::Warn);
    assert_eq!(delete_step(&DeleteOutcome::Failed), MirrorStep::Warn);
}

#[test]
fn initial_sync_pairs_each_file_with_its_mirror_path() {
    let files = vec![b"INBOX/x.txt".to_vec(), b"INBOX/a/b.txt".to_vec()];
    let plan = initial_sync_plan(&files);
    assert_eq!(plan.len(), 2);
    assert_eq!(plan[0], (b"INBOX/x.txt".to_vec(), b"CLONE/x.txt".to_vec()));
    assert_eq!(plan[1], (b"INBOX/a/b.txt".to_vec(), b"CLONE/a/b.txt".to_vec()));
}

#[test]
fn created_file_in_new_directory_reaches_the_mirror() {
    let mut idx = FileIndex::new(b"INBOX/".to_vec(), &Vec::new());
    let r = idx.reconcile(
        &EventKind::Create(SubKind::File),
        &b"INBOX/new/y.txt".to_vec(),
        &PathStatus::File(3),
    );
    let c = r.expect("a change");
    assert_eq!(c.action, Action::Added);
    assert_eq!(op_for_action(&c.action), MirrorOp::Copy);
    // The first copy fails for the missing CLONE/new/ parent: the
    // directories are created and the copy retried, once.
    assert_eq!(
        copy_step(&CopyOutcome::MissingParent, false, &SyncPhase::Live),
        MirrorStep::CreateDirsAndRetry
    );
    assert_eq!(copy_step(&CopyOutcome::Copied, true, &SyncPhase::Live), MirrorStep::Done);
}

#[test]
fn deleted_file_leaves_index_and_mirror() {
    let files = vec![(b"INBOX/x.txt".to_vec(), 10u64)];
    let mut idx = FileIndex::new(b"INBOX/".to_vec(), &files);
    let r = idx.reconcile(
        &EventKind::Remove(SubKind::File),
        &b"INBOX/x.txt".to_vec(),
        &PathStatus::Missing,
    );
    let c = r.expect("a change");
    assert_eq!(c.action, Action::Removed);
    assert!(!idx.contains(&b"INBOX/x.txt".to_vec()));
    assert_eq!(op_for_action(&c.action), MirrorOp::Delete);
    assert_eq!(delete_step(&DeleteOutcome::Deleted), MirrorStep::Done);
}
