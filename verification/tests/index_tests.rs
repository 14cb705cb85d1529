use fm::events::{Action, EventKind, PathStatus, RawNotification, SubKind};
use fm::index::FileIndex;
use fm::paths::FatalError;

fn empty_index() -> FileIndex {
    FileIndex::new(b"INBOX/".to_vec(), &Vec::new())
}

#[test]
fn new_index_records_scanned_files() {
    let files = vec![(b"INBOX/x.txt".to_vec(), 100u64), (b"INBOX/a/b.txt".to_vec(), 200u64)];
    let idx = FileIndex::new(b"INBOX/".to_vec(), &files);
    assert_eq!(idx.len(), 2);
    assert_eq!(idx.get(&b"INBOX/x.txt".to_vec()), Some(100));
    assert_eq!(idx.get(&b"INBOX/a/b.txt".to_vec()), Some(200));
    assert_eq!(idx.get(&b"INBOX/other".to_vec()), None);
}

#[test]
fn new_index_last_pair_for_a_path_wins() {
    let files = vec![(b"INBOX/x".to_vec(), 1u64), (b"INBOX/x".to_vec(), 2u64)];
    let idx = FileIndex::new(b"INBOX/".to_vec(), &files);
    assert_eq!(idx.len(), 1);
    assert_eq!(idx.get(&b"INBOX/x".to_vec()), Some(2));
}

#[test]
fn create_of_existing_file_adds_entry() {
    let mut idx = empty_index();
    let r = idx.reconcile(
        &EventKind::Create(SubKind::File),
        &b"INBOX/x.txt".to_vec(),
        &PathStatus::File(42),
    );
    let c = r.expect("a change");
    assert_eq!(c.action, Action::Added);
    assert_eq!(c.path, b"INBOX/x.txt".to_vec());
    assert!(idx.contains(&b"INBOX/x.txt".to_vec()));
    assert_eq!(idx.get(&b"INBOX/x.txt".to_vec()), Some(42));
}

#[test]
fn create_of_folder_is_ignored() {
    let mut idx = empty_index();
    let r = idx.reconcile(
        &EventKind::Create(SubKind::Folder),
        &b"INBOX/new".to_vec(),
        &PathStatus::Directory(5),
    );
    assert!(r.is_none());
    assert_eq!(idx.len(), 0);
}

#[test]
fn create_whose_path_became_a_directory_is_ignored() {
    let mut idx = empty_index();
    let r = idx.reconcile(
        &EventKind::Create(SubKind::File),
        &b"INBOX/new".to_vec(),
        &PathStatus::Directory(5),
    );
    assert!(r.is_none());
    assert!(!idx.contains(&b"INBOX/new".to_vec()));
    assert_eq!(idx.len(), 0);
}

#[test]
fn create_of_vanished_path_is_ignored() {
    let mut idx = empty_index();
    let r = idx.reconcile(
        &EventKind::Create(SubKind::File),
        &b"INBOX/4913".to_vec(),
        &PathStatus::Missing,
    );
    assert!(r.is_none());
    assert!(!idx.contains(&b"INBOX/4913".to_vec()));
    assert_eq!(idx.len(), 0);
}

#[test]
fn modify_of_file_updates_entry() {
    let files = vec![(b"INBOX/x.txt".to_vec(), 10u64)];
    let mut idx = FileIndex::new(b"INBOX/".to_vec(), &files);
    let r = idx.reconcile(&EventKind::Modify, &b"INBOX/x.txt".to_vec(), &PathStatus::File(11));
    let c = r.expect("a change");
    assert_eq!(c.action, Action::Modified);
    assert_eq!(idx.get(&b"INBOX/x.txt".to_vec()), Some(11));
}

#[test]
fn modify_of_vanished_or_directory_path_is_ignored() {
    let mut idx = empty_index();
    let r1 = idx.reconcile(&EventKind::Modify, &b"INBOX/x".to_vec(), &PathStatus::Missing);
    assert!(r1.is_none());
    let r2 = idx.reconcile(&EventKind::Modify, &b"INBOX/x".to_vec(), &PathStatus::Directory(3));
    assert!(r2.is_none());
    assert_eq!(idx.len(), 0);
}

#[test]
fn remove_of_known_file_deletes_entry() {
    let files = vec![(b"INBOX/x.txt".to_vec(), 10u64)];
    let mut idx = FileIndex::new(b"INBOX/".to_vec(), &files);
    let r = idx.reconcile(
        &EventKind::Remove(SubKind::File),
        &b"INBOX/x.txt".to_vec(),
        &PathStatus::Missing,
    );
    let c = r.expect("a change");
    assert_eq!(c.action, Action::Removed);
    assert!(!idx.contains(&b"INBOX/x.txt".to_vec()));
    assert_eq!(idx.len(), 0);
}

#[test]
fn remove_of_absent_path_is_idempotent() {
    let files = vec![(b"INBOX/other".to_vec(), 7u64)];
    let mut idx = FileIndex::new(b"INBOX/".to_vec(), &files);
    let r = idx.reconcile(
        &EventKind::Remove(SubKind::File),
        &b"INBOX/gone".to_vec(),
        &PathStatus::Missing,
    );
    let c = r.expect("a change");
    assert_eq!(c.action, Action::Removed);
    assert_eq!(idx.len(), 1);
    assert_eq!(idx.get(&b"INBOX/other".to_vec()), Some(7));
}

#[test]
fn remove_of_folder_is_ignored() {
    let files = vec![(b"INBOX/d/x".to_vec(), 7u64)];
    let mut idx = FileIndex::new(b"INBOX/".to_vec(), &files);
    let r = idx.reconcile(
        &EventKind::Remove(SubKind::Folder),
        &b"INBOX/d".to_vec(),
        &PathStatus::Missing,
    );
    assert!(r.is_none());
    assert_eq!(idx.len(), 1);
}

#[test]
fn other_kinds_are_ignored() {
    let mut idx = empty_index();
    let r = idx.reconcile(&EventKind::Other, &b"INBOX/x".to_vec(), &PathStatus::File(1));
    assert!(r.is_none());
    assert_eq!(idx.len(), 0);
}

#[test]
fn last_processed_notification_sets_the_time() {
    let mut idx = empty_index();
    let p = b"INBOX/x.txt".to_vec();
    idx.reconcile(&EventKind::Create(SubKind::File), &p, &PathStatus::File(1));
    idx.reconcile(&EventKind::Modify, &p, &PathStatus::File(2));
    idx.reconcile(&EventKind::Modify, &p, &PathStatus::File(9));
    assert_eq!(idx.get(&p), Some(9));
    assert_eq!(idx.len(), 1);
}

#[test]
fn resolve_takes_first_path_of_notification() {
    let idx = empty_index();
    let n = RawNotification {
        kind: EventKind::Create(SubKind::File),
        paths: vec![b"/home/u/INBOX/x.txt".to_vec(), b"/home/u/INBOX/y.txt".to_vec()],
    };
    assert_eq!(idx.resolve(&n), Ok(b"INBOX/x.txt".to_vec()));
}

#[test]
fn resolve_outside_watched_root_is_fatal() {
    let idx = empty_index();
    let n = RawNotification {
        kind: EventKind::Modify,
        paths: vec![b"/somewhere/else.txt".to_vec()],
    };
    assert_eq!(idx.resolve(&n), Err(FatalError::RootNotFound));
}

#[test]
fn items_reports_every_entry_once() {
    let files = vec![(b"INBOX/a".to_vec(), 1u64), (b"INBOX/b".to_vec(), 2u64)];
    let idx = FileIndex::new(b"INBOX/".to_vec(), &files);
    let mut items = idx.items();
    items.sort();
    assert_eq!(items, vec![(b"INBOX/a".to_vec(), 1u64), (b"INBOX/b".to_vec(), 2u64)]);
}
