//! Translation of inbox paths to their mirror counterparts, and rebasing
//! of notified paths onto the watched root.
//!
//! Both operations work on the textual form of a path. Translation
//! substitutes the mirror-root prefix for the inbox-root prefix at its
//! first occurrence; rebasing truncates everything before the first
//! occurrence of the watched root.

use vstd::prelude::*;
use crate::bytes::contains_seq;
use crate::bytes::match_at;
use crate::bytes::first_match_at;
use crate::bytes::first_index;
use crate::bytes::spliced;
use crate::bytes::find_first;
use crate::bytes::replace_first;
use crate::bytes::tail_from;
use crate::bytes::lemma_first_match_exists;
use crate::bytes::lemma_first_match_unique;

verus! {

/// The default watched root, `INBOX/`, in textual form.
pub open spec fn spec_inbox_root() -> Seq<u8> {
    seq![73u8, 78u8, 66u8, 79u8, 88u8, 47u8]
}

/// The default mirror root, `CLONE/`, in textual form.
pub open spec fn spec_mirror_root() -> Seq<u8> {
    seq![67u8, 76u8, 79u8, 78u8, 69u8, 47u8]
}

/// The default watched root, `INBOX/`, as bytes.
pub fn inbox_root() -> (r: Vec<u8>)
    ensures
        r@ == spec_inbox_root(),
{
    let mut v: Vec<u8> = Vec::new();
    v.push(73);
    v.push(78);
    v.push(66);
    v.push(79);
    v.push(88);
    v.push(47);
    proof {
        assert(v@ =~= spec_inbox_root());
    }
    v
}

/// The default mirror root, `CLONE/`, as bytes.
pub fn mirror_root() -> (r: Vec<u8>)
    ensures
        r@ == spec_mirror_root(),
{
    let mut v: Vec<u8> = Vec::new();
    v.push(67);
    v.push(76);
    v.push(79);
    v.push(78);
    v.push(69);
    v.push(47);
    proof {
        assert(v@ =~= spec_mirror_root());
    }
    v
}

/// The mirror path of an inbox path: the first occurrence of the inbox
/// root `INBOX/` in its text replaced by the mirror root `CLONE/`.
/// The path's text must contain the inbox root.
pub fn host_path_to_target(host: &Vec<u8>) -> (r: Vec<u8>)
    requires
        contains_seq(host@, spec_inbox_root()),
    ensures
        r@ == spliced(host@, spec_inbox_root(), spec_mirror_root()),
{
    let from = inbox_root();
    let to = mirror_root();
    replace_first(host, &from, &to)
}

/// A path that begins with the inbox root translates to the mirror root
/// followed, unchanged, by the rest of the path.
pub proof fn lemma_prefix_translation(path: Seq<u8>, from: Seq<u8>, to: Seq<u8>, rest: Seq<u8>)
    requires
        path == from + rest,
    ensures
        contains_seq(path, from),
        spliced(path, from, to) == to + rest,
{
    assert(path.subrange(0, from.len() as int) =~= from);
    assert(match_at(path, from, 0));
    assert(first_match_at(path, from, 0));
    lemma_first_match_exists(path, from);
    lemma_first_match_unique(path, from, 0, first_index(path, from));
    assert(path.subrange(0, 0) =~= Seq::<u8>::empty());
    assert(path.subrange(from.len() as int, path.len() as int) =~= rest);
    assert(spliced(path, from, to) =~= to + rest);
}

/// Conditions under which the watcher cannot safely continue: the
/// process terminates when one arises.
#[derive(Clone, Copy, Debug, PartialEq, Eq, Structural)]
pub enum FatalError {
    /// The watched root's textual form does not occur in a notified path.
    RootNotFound,
}

/// A notified path rebased onto the watched root: the suffix of `path`
/// from the first occurrence of `root` on. When `root` does not occur in
/// the path's text the notification cannot be attributed to the watched
/// tree, a fatal condition.
pub fn resolve_relative(path: &Vec<u8>, root: &Vec<u8>) -> (r: Result<Vec<u8>, FatalError>)
    ensures
        contains_seq(path@, root@) ==> (r matches Ok(rel)
            && rel@ == path@.subrange(first_index(path@, root@), path@.len() as int)),
        !contains_seq(path@, root@) ==> r == Result::<Vec<u8>, FatalError>::Err(
            FatalError::RootNotFound,
        ),
{
    match find_first(path, root) {
        Some(i) => {
            proof {
                lemma_first_match_exists(path@, root@);
                lemma_first_match_unique(path@, root@, i as int, first_index(path@, root@));
            }
            Ok(tail_from(path, i))
        },
        None => Err(FatalError::RootNotFound),
    }
}

} // verus!
