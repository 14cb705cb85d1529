use fm::bytes::{bytes_eq, clone_bytes, find_first, replace_first, tail_from};
use fm::paths::{host_path_to_target, inbox_root, mirror_root, resolve_relative, FatalError};

#[test]
fn bytes_eq_basics() {
    assert!(bytes_eq(&b"abc".to_vec(), &b"abc".to_vec()));
    assert!(!bytes_eq(&b"abc".to_vec(), &b"abd".to_vec()));
    assert!(!bytes_eq(&b"abc".to_vec(), &b"ab".to_vec()));
    assert!(bytes_eq(&b"".to_vec(), &b"".to_vec()));
}

#[test]
fn clone_bytes_copies() {
    let v = b"INBOX/x.txt".to_vec();
    assert_eq!(clone_bytes(&v), v);
}

#[test]
fn find_first_finds_first_occurrence() {
    assert_eq!(find_first(&b"aababc".to_vec(), &b"ab".to_vec()), Some(1));
    assert_eq!(find_first(&b"abc".to_vec(), &b"abc".to_vec()), Some(0));
    assert_eq!(find_first(&b"abc".to_vec(), &b"x".to_vec()), None);
    assert_eq!(find_first(&b"abc".to_vec(), &b"".to_vec()), Some(0));
    assert_eq!(find_first(&b"ab".to_vec(), &b"abc".to_vec()), None);
}

#[test]
fn replace_first_replaces_only_first() {
    let r = replace_first(&b"xAByAB".to_vec(), &b"AB".to_vec(), &b"CD".to_vec());
    assert_eq!(r, b"xCDyAB".to_vec());
}

#[test]
fn tail_from_takes_suffix() {
    assert_eq!(tail_from(&b"abcdef".to_vec(), 2), b"cdef".to_vec());
    assert_eq!(tail_from(&b"abc".to_vec(), 3), b"".to_vec());
}

#[test]
fn default_roots_are_inbox_and_clone() {
    assert_eq!(inbox_root(), b"INBOX/".to_vec());
    assert_eq!(mirror_root(), b"CLONE/".to_vec());
}

#[test]
fn mirror_path_of_inbox_file() {
    let r = host_path_to_target(&b"INBOX/a/b.txt".to_vec());
    assert_eq!(r, b"CLONE/a/b.txt".to_vec());
}

#[test]
fn mirror_path_keeps_leading_text() {
    let r = host_path_to_target(&b"./INBOX/x.txt".to_vec());
    assert_eq!(r, b"./CLONE/x.txt".to_vec());
}

#[test]
fn resolve_truncates_before_root() {
    let r = resolve_relative(&b"/home/u/INBOX/new/y.txt".to_vec(), &b"INBOX/".to_vec());
    assert_eq!(r, Ok(b"INBOX/new/y.txt".to_vec()));
}

#[test]
fn resolve_without_root_is_fatal() {
    let r = resolve_relative(&b"/tmp/elsewhere/x.txt".to_vec(), &b"INBOX/".to_vec());
    assert_eq!(r, Err(FatalError::RootNotFound));
}
