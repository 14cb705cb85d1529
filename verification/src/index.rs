//! The in-memory index of known inbox files — path to last-modified
//! time — and the reconciliation of raw watch notifications against it.
//!
//! The index is a list of entries with pairwise-distinct paths; its
//! mathematical content is the map `as_map` of that list. Reconciliation
//! is specified by `spec_reconcile`, a pure function of the index's
//! content, the notification kind, the rebased path, and what a stat of
//! that path showed at processing time.

use vstd::prelude::*;
use crate::bytes::bytes_eq;
use crate::bytes::clone_bytes;
use crate::bytes::contains_seq;
use crate::bytes::first_index;
use crate::events::Action;
use crate::events::EventKind;
use crate::events::NormalizedChange;
use crate::events::PathStatus;
use crate::events::RawNotification;
use crate::events::SubKind;
use crate::events::action_of;
use crate::events::status_time;
use crate::paths::FatalError;
use crate::paths::resolve_relative;

verus! {

/// The path of the entry at index `i`, as a sequence.
pub open spec fn entry_key(s: Seq<(Vec<u8>, u64)>, i: int) -> Seq<u8> {
    s[i].0@
}

/// The entries' paths are pairwise distinct.
pub open spec fn unique_keys(s: Seq<(Vec<u8>, u64)>) -> bool {
    forall|i: int, j: int| 0 <= i < j < s.len() ==> entry_key(s, i) != entry_key(s, j)
}

/// The mathematical content of an entry list: path to modification
/// time, later entries for a path overriding earlier ones.
pub open spec fn as_map(s: Seq<(Vec<u8>, u64)>) -> Map<Seq<u8>, u64>
    decreases s.len(),
{
    if s.len() == 0 {
        Map::empty()
    } else {
        as_map(s.drop_last()).insert(s.last().0@, s.last().1)
    }
}

/// A key is in the content exactly when some entry carries it.
pub proof fn lemma_as_map_domain(s: Seq<(Vec<u8>, u64)>)
    ensures
        forall|k: Seq<u8>|
            as_map(s).contains_key(k) <==> exists|i: int|
                0 <= i < s.len() && entry_key(s, i) == k,
    decreases s.len(),
{
    if s.len() > 0 {
        let d = s.drop_last();
        lemma_as_map_domain(d);
        assert forall|k: Seq<u8>| as_map(s).contains_key(k) implies exists|i: int|
            0 <= i < s.len() && entry_key(s, i) == k by {
            if k == s.last().0@ {
                assert(entry_key(s, s.len() - 1) == k);
            } else {
                assert(as_map(d).contains_key(k));
                let i = choose|i: int| 0 <= i < d.len() && entry_key(d, i) == k;
                assert(d[i] == s[i]);
                assert(entry_key(s, i) == k);
            }
        }
        assert forall|k: Seq<u8>| (exists|i: int| 0 <= i < s.len() && entry_key(s, i) == k)
            implies as_map(s).contains_key(k) by {
            let i = choose|i: int| 0 <= i < s.len() && entry_key(s, i) == k;
            if i < s.len() - 1 {
                assert(d[i] == s[i]);
                assert(entry_key(d, i) == k);
                assert(as_map(d).contains_key(k));
            } else {
                assert(s.last().0@ == k);
            }
        }
    }
}

/// A key no entry carries is not in the content.
pub proof fn lemma_as_map_absent(s: Seq<(Vec<u8>, u64)>, k: Seq<u8>)
    requires
        forall|i: int| 0 <= i < s.len() ==> entry_key(s, i) != k,
    ensures
        !as_map(s).contains_key(k),
{
    lemma_as_map_domain(s);
}

/// With distinct keys, each entry's value is its key's value in the content.
pub proof fn lemma_as_map_value(s: Seq<(Vec<u8>, u64)>, i: int)
    requires
        unique_keys(s),
        0 <= i < s.len(),
    ensures
        as_map(s).contains_key(entry_key(s, i)),
        as_map(s)[entry_key(s, i)] == s[i].1,
    decreases s.len(),
{
    let d = s.drop_last();
    if i < s.len() - 1 {
        assert(unique_keys(d)) by {
            assert(forall|a: int, b: int| 0 <= a < b < d.len()
                ==> entry_key(d, a) == entry_key(s, a) && entry_key(d, b) == entry_key(s, b));
        }
        lemma_as_map_value(d, i);
        assert(entry_key(s, i) != s.last().0@) by {
            assert(entry_key(s, s.len() - 1) == s.last().0@);
        }
        assert(entry_key(d, i) == entry_key(s, i));
    }
}

/// Appending an entry inserts its pair into the content.
pub proof fn lemma_as_map_push(s: Seq<(Vec<u8>, u64)>, e: (Vec<u8>, u64))
    ensures
        as_map(s.push(e)) == as_map(s).insert(e.0@, e.1),
{
    assert(s.push(e).drop_last() =~= s);
    assert(s.push(e).last() == e);
}

/// Appending an entry with a fresh key keeps the keys distinct.
pub proof fn lemma_unique_push(s: Seq<(Vec<u8>, u64)>, e: (Vec<u8>, u64))
    requires
        unique_keys(s),
        forall|i: int| 0 <= i < s.len() ==> entry_key(s, i) != e.0@,
    ensures
        unique_keys(s.push(e)),
{
    let t = s.push(e);
    assert forall|i: int, j: int| 0 <= i < j < t.len() implies entry_key(t, i) != entry_key(
        t,
        j,
    ) by {
        if j < s.len() {
            assert(entry_key(t, i) == entry_key(s, i));
            assert(entry_key(t, j) == entry_key(s, j));
        } else {
            assert(entry_key(t, i) == entry_key(s, i));
            assert(entry_key(t, j) == e.0@);
        }
    }
}

/// Overwriting the entry that carries a key updates that key's value in
/// the content and keeps the keys distinct.
pub proof fn lemma_as_map_update(s: Seq<(Vec<u8>, u64)>, i: int, e: (Vec<u8>, u64))
    requires
        unique_keys(s),
        0 <= i < s.len(),
        e.0@ == entry_key(s, i),
    ensures
        as_map(s.update(i, e)) == as_map(s).insert(e.0@, e.1),
        unique_keys(s.update(i, e)),
    decreases s.len(),
{
    let t = s.update(i, e);
    assert(forall|j: int| 0 <= j < s.len() ==> entry_key(t, j) == entry_key(s, j));
    if i == s.len() - 1 {
        assert(t.drop_last() =~= s.drop_last());
        assert(t.last() == e);
        assert(as_map(t) =~= as_map(s).insert(e.0@, e.1));
    } else {
        let d = s.drop_last();
        assert(unique_keys(d)) by {
            assert(forall|a: int, b: int| 0 <= a < b < d.len()
                ==> entry_key(d, a) == entry_key(s, a) && entry_key(d, b) == entry_key(s, b));
        }
        assert(entry_key(d, i) == entry_key(s, i));
        lemma_as_map_update(d, i, e);
        assert(t.drop_last() =~= d.update(i, e));
        assert(t.last() == s.last());
        assert(e.0@ != s.last().0@) by {
            assert(entry_key(s, s.len() - 1) == s.last().0@);
        }
        assert(as_map(t) =~= as_map(s).insert(e.0@, e.1));
    }
}

/// Deleting the entry that carries a key removes that key from the
/// content and keeps the keys distinct.
pub proof fn lemma_as_map_remove(s: Seq<(Vec<u8>, u64)>, i: int)
    requires
        unique_keys(s),
        0 <= i < s.len(),
    ensures
        as_map(s.remove(i)) == as_map(s).remove(entry_key(s, i)),
        unique_keys(s.remove(i)),
    decreases s.len(),
{
    let t = s.remove(i);
    let k = entry_key(s, i);
    assert forall|a: int, b: int| 0 <= a < b < t.len() implies entry_key(t, a) != entry_key(
        t,
        b,
    ) by {
        let a0: int = if a < i { a } else { a + 1 };
        let b0: int = if b < i { b } else { b + 1 };
        assert(entry_key(t, a) == entry_key(s, a0));
        assert(entry_key(t, b) == entry_key(s, b0));
    }
    if i == s.len() - 1 {
        assert(t =~= s.drop_last());
        assert(!as_map(s.drop_last()).contains_key(k)) by {
            assert(entry_key(s, s.len() - 1) == k);
            assert forall|a: int| 0 <= a < s.drop_last().len() implies entry_key(
                s.drop_last(),
                a,
            ) != k by {
                assert(s.drop_last()[a] == s[a]);
                assert(entry_key(s, a) != k);
            }
            lemma_as_map_absent(s.drop_last(), k);
        }
        assert(as_map(t) =~= as_map(s).remove(k));
    } else {
        let d = s.drop_last();
        assert(unique_keys(d)) by {
            assert(forall|a: int, b: int| 0 <= a < b < d.len()
                ==> entry_key(d, a) == entry_key(s, a) && entry_key(d, b) == entry_key(s, b));
        }
        assert(entry_key(d, i) == k);
        lemma_as_map_remove(d, i);
        assert(t.drop_last() =~= d.remove(i));
        assert(t.last() == s.last());
        assert(k != s.last().0@) by {
            assert(entry_key(s, s.len() - 1) == s.last().0@);
        }
        assert(as_map(t) =~= as_map(s).remove(k));
    }
}

/// With distinct keys, the content has exactly one pair per entry.
pub proof fn lemma_as_map_len(s: Seq<(Vec<u8>, u64)>)
    requires
        unique_keys(s),
    ensures
        as_map(s).dom().finite(),
        as_map(s).len() == s.len(),
    decreases s.len(),
{
    if s.len() == 0 {
        assert(as_map(s).dom() =~= Set::<Seq<u8>>::empty());
    } else {
        let d = s.drop_last();
        assert(unique_keys(d)) by {
            assert(forall|a: int, b: int| 0 <= a < b < d.len()
                ==> entry_key(d, a) == entry_key(s, a) && entry_key(d, b) == entry_key(s, b));
        }
        lemma_as_map_len(d);
        assert(!as_map(d).contains_key(s.last().0@)) by {
            assert(entry_key(s, s.len() - 1) == s.last().0@);
            assert forall|a: int| 0 <= a < d.len() implies entry_key(d, a) != s.last().0@ by {
                assert(d[a] == s[a]);
                assert(entry_key(s, a) != entry_key(s, s.len() - 1));
            }
            lemma_as_map_absent(d, s.last().0@);
        }
    }
}

/// The in-memory snapshot of known inbox files: inbox-relative path to
/// last-modified time, together with the watched root it was built for.
pub struct FileIndex {
    entries: Vec<(Vec<u8>, u64)>,
    location: Vec<u8>,
}

impl View for FileIndex {
    type V = Map<Seq<u8>, u64>;

    closed spec fn view(&self) -> Map<Seq<u8>, u64> {
        as_map(self.entries@)
    }
}

/// What reconciling one notification does to the index's content, and
/// the action of the normalized change it yields, if any:
/// - `Create` of a folder is ignored, as is a `Create` whose path no
///   longer exists, or has become a directory, at processing time; a
///   `Create` whose path exists as a regular file records the stat's
///   time and yields `Added` — so a directory never becomes an entry;
/// - `Modify` of a path that is missing or has become a directory is
///   ignored; of a regular file it records the stat's time and yields
///   `Modified`;
/// - `Remove` of a folder is ignored; any other `Remove` deletes the
///   entry unconditionally and yields `Removed`;
/// - any other kind is ignored.
pub open spec fn spec_reconcile(
    m: Map<Seq<u8>, u64>,
    kind: EventKind,
    rel: Seq<u8>,
    status: PathStatus,
) -> (Map<Seq<u8>, u64>, Option<Action>) {
    match kind {
        EventKind::Create(sub) => if sub == SubKind::Folder {
            (m, None)
        } else {
            match status {
                PathStatus::Missing => (m, None),
                PathStatus::Directory(_) => (m, None),
                PathStatus::File(t) => (m.insert(rel, t), Some(Action::Added)),
            }
        },
        EventKind::Modify => match status {
            PathStatus::File(t) => (m.insert(rel, t), Some(Action::Modified)),
            _ => (m, None),
        },
        EventKind::Remove(sub) => if sub == SubKind::Folder {
            (m, None)
        } else {
            (m.remove(rel), Some(Action::Removed))
        },
        EventKind::Other => (m, None),
    }
}

impl FileIndex {
    /// The entries' paths are pairwise distinct.
    pub closed spec fn wf(&self) -> bool {
        unique_keys(self.entries@)
    }

    /// The watched root this index was built for.
    pub closed spec fn root(&self) -> Seq<u8> {
        self.location@
    }

    /// An index over the watched root `location`, built from the initial
    /// scan's (path, modification time) pairs, later pairs for a path
    /// overriding earlier ones.
    pub fn new(location: Vec<u8>, files: &Vec<(Vec<u8>, u64)>) -> (s: Self)
        ensures
            s.wf(),
            s@ == as_map(files@),
            s.root() == location@,
    {
        let mut s = FileIndex { entries: Vec::new(), location };
        proof {
            assert(s@ =~= as_map(files@.take(0)));
        }
        let mut i: usize = 0;
        while i < files.len()
            invariant
                i <= files@.len(),
                s.wf(),
                s@ == as_map(files@.take(i as int)),
                s.root() == location@,
            decreases files@.len() - i,
        {
            let p = clone_bytes(&files[i].0);
            s.insert(p, files[i].1);
            proof {
                assert(files@.take(i + 1).drop_last() =~= files@.take(i as int));
                assert(files@.take(i + 1).last() == files@[i as int]);
            }
            i += 1;
        }
        proof {
            assert(files@.take(files@.len() as int) =~= files@);
        }
        s
    }

    fn find_entry(&self, path: &Vec<u8>) -> (r: Option<usize>)
        ensures
            match r {
                Some(i) => 0 <= i < self.entries@.len() && entry_key(self.entries@, i as int)
                    == path@,
                None => forall|i: int|
                    0 <= i < self.entries@.len() ==> entry_key(self.entries@, i) != path@,
            },
    {
        let mut i: usize = 0;
        while i < self.entries.len()
            invariant
                i <= self.entries@.len(),
                forall|j: int| 0 <= j < i ==> entry_key(self.entries@, j) != path@,
            decreases self.entries@.len() - i,
        {
            if bytes_eq(&self.entries[i].0, path) {
                return Some(i);
            }
            i += 1;
        }
        None
    }

    /// Record `path` as present with modification time `mtime`,
    /// inserting an entry or overwriting the one already there.
    pub fn insert(&mut self, path: Vec<u8>, mtime: u64)
        requires
            old(self).wf(),
        ensures
            final(self).wf(),
            final(self)@ == old(self)@.insert(path@, mtime),
            final(self).root() == old(self).root(),
    {
        match self.find_entry(&path) {
            Some(i) => {
                proof {
                    lemma_as_map_update(self.entries@, i as int, (path, mtime));
                }
                self.entries.set(i, (path, mtime));
            },
            None => {
                proof {
                    lemma_as_map_push(self.entries@, (path, mtime));
                    lemma_unique_push(self.entries@, (path, mtime));
                }
                self.entries.push((path, mtime));
            },
        }
    }

    /// Forget `path`. A path already absent is forgotten already: the
    /// index is left unchanged.
    pub fn remove(&mut self, path: &Vec<u8>)
        requires
            old(self).wf(),
        ensures
            final(self).wf(),
            final(self)@ == old(self)@.remove(path@),
            final(self).root() == old(self).root(),
    {
        match self.find_entry(path) {
            Some(i) => {
                proof {
                    lemma_as_map_remove(self.entries@, i as int);
                }
                let _ = self.entries.remove(i);
            },
            None => {
                proof {
                    lemma_as_map_absent(self.entries@, path@);
                    assert(as_map(self.entries@).remove(path@) =~= as_map(self.entries@));
                }
            },
        }
    }

    /// Whether `path` is known to the index.
    pub fn contains(&self, path: &Vec<u8>) -> (r: bool)
        requires
            self.wf(),
        ensures
            r == self@.contains_key(path@),
    {
        proof {
            lemma_as_map_domain(self.entries@);
        }
        match self.find_entry(path) {
            Some(_) => true,
            None => false,
        }
    }

    /// The recorded modification time of `path`, if it is known.
    pub fn get(&self, path: &Vec<u8>) -> (r: Option<u64>)
        requires
            self.wf(),
        ensures
            match r {
                Some(t) => self@.contains_key(path@) && self@[path@] == t,
                None => !self@.contains_key(path@),
            },
    {
        match self.find_entry(path) {
            Some(i) => {
                proof {
                    lemma_as_map_value(self.entries@, i as int);
                }
                Some(self.entries[i].1)
            },
            None => {
                proof {
                    lemma_as_map_absent(self.entries@, path@);
                }
                None
            },
        }
    }

    /// How many files the index knows.
    pub fn len(&self) -> (r: usize)
        requires
            self.wf(),
        ensures
            r == self@.len(),
    {
        proof {
            lemma_as_map_len(self.entries@);
        }
        self.entries.len()
    }

    /// A snapshot of the index for reporting: each known path with its
    /// recorded modification time, each path exactly once.
    pub fn items(&self) -> (r: Vec<(Vec<u8>, u64)>)
        requires
            self.wf(),
        ensures
            forall|i: int| #![auto] 0 <= i < r@.len() ==> self@.contains_key(r@[i].0@)
                && self@[r@[i].0@] == r@[i].1,
            forall|k: Seq<u8>| #![auto] self@.contains_key(k) ==> exists|i: int|
                0 <= i < r@.len() && r@[i].0@ == k,
            forall|i: int, j: int| 0 <= i < j < r@.len() ==> r@[i].0@ != r@[j].0@,
    {
        let mut r: Vec<(Vec<u8>, u64)> = Vec::new();
        let mut i: usize = 0;
        while i < self.entries.len()
            invariant
                i <= self.entries@.len(),
                r@.len() == i,
                self.wf(),
                forall|j: int| #![auto] 0 <= j < i ==> r@[j].0@ == entry_key(self.entries@, j)
                    && r@[j].1 == self.entries@[j].1,
            decreases self.entries@.len() - i,
        {
            let p = clone_bytes(&self.entries[i].0);
            r.push((p, self.entries[i].1));
            i += 1;
        }
        proof {
            lemma_as_map_domain(self.entries@);
            assert forall|a: int| 0 <= a < r@.len() implies self@.contains_key(r@[a].0@)
                && self@[r@[a].0@] == r@[a].1 by {
                lemma_as_map_value(self.entries@, a);
            }
            assert forall|k: Seq<u8>| self@.contains_key(k) implies exists|a: int|
                0 <= a < r@.len() && r@[a].0@ == k by {
                let a = choose|a: int| 0 <= a < self.entries@.len() && entry_key(
                    self.entries@,
                    a,
                ) == k;
                assert(r@[a].0@ == k);
            }
            assert forall|a: int, b: int| 0 <= a < b < r@.len() implies r@[a].0@ != r@[b].0@ by {
                assert(r@[a].0@ == entry_key(self.entries@, a));
                assert(r@[b].0@ == entry_key(self.entries@, b));
            }
        }
        r
    }

    /// Rebase the first path of a notification onto this index's watched
    /// root: the suffix of that path from the first occurrence of the
    /// root's text on, or a fatal error when the root does not occur.
    pub fn resolve(&self, n: &RawNotification) -> (r: Result<Vec<u8>, FatalError>)
        requires
            n.wf(),
        ensures
            contains_seq(n.paths@[0]@, self.root()) ==> (r matches Ok(rel) && rel@
                == n.paths@[0]@.subrange(
                first_index(n.paths@[0]@, self.root()),
                n.paths@[0]@.len() as int,
            )),
            !contains_seq(n.paths@[0]@, self.root()) ==> r == Result::<Vec<u8>, FatalError>::Err(
                FatalError::RootNotFound,
            ),
    {
        resolve_relative(&n.paths[0], &self.location)
    }

    /// Reconcile one notification against the index: update the index as
    /// `spec_reconcile` says and return the normalized change owed to
    /// the mirror, or `None` when the notification is ignored. `rel` is
    /// the notified path rebased onto the watched root and `status` what
    /// a stat of it showed at processing time.
    pub fn reconcile(&mut self, kind: &EventKind, rel: &Vec<u8>, status: &PathStatus) -> (r:
        Option<NormalizedChange>)
        requires
            old(self).wf(),
        ensures
            final(self).wf(),
            final(self).root() == old(self).root(),
            final(self)@ == spec_reconcile(old(self)@, *kind, rel@, *status).0,
            action_of(r) == spec_reconcile(old(self)@, *kind, rel@, *status).1,
            r matches Some(c) ==> c.path@ == rel@,
    {
        match kind {
            EventKind::Create(sub) => {
                if *sub == SubKind::Folder {
                    return None;
                }
                match status {
                    PathStatus::Missing => None,
                    PathStatus::Directory(_) => None,
                    PathStatus::File(t) => {
                        self.insert(clone_bytes(rel), *t);
                        Some(NormalizedChange { path: clone_bytes(rel), action: Action::Added })
                    },
                }
            },
            EventKind::Modify => {
                match status {
                    PathStatus::File(t) => {
                        self.insert(clone_bytes(rel), *t);
                        Some(NormalizedChange { path: clone_bytes(rel), action: Action::Modified })
                    },
                    _ => None,
                }
            },
            EventKind::Remove(sub) => {
                if *sub == SubKind::Folder {
                    return None;
                }
                self.remove(rel);
                Some(NormalizedChange { path: clone_bytes(rel), action: Action::Removed })
            },
            EventKind::Other => None,
        }
    }
}

/// Removal is idempotent: reconciling a non-folder `Remove` for a path
/// already absent from the index still yields `Removed` and leaves the
/// index's content unchanged.
pub proof fn lemma_remove_idempotent(
    m: Map<Seq<u8>, u64>,
    sub: SubKind,
    rel: Seq<u8>,
    status: PathStatus,
)
    requires
        sub != SubKind::Folder,
        !m.contains_key(rel),
    ensures
        spec_reconcile(m, EventKind::Remove(sub), rel, status).0 == m,
        spec_reconcile(m, EventKind::Remove(sub), rel, status).1 == Some(Action::Removed),
{
    assert(m.remove(rel) =~= m);
}

/// Directories never become index entries: a notification whose stat
/// does not show a regular file never adds a key, whatever its kind.
pub proof fn lemma_no_directory_entries(
    m: Map<Seq<u8>, u64>,
    kind: EventKind,
    rel: Seq<u8>,
    status: PathStatus,
)
    requires
        !(status matches PathStatus::File(_)),
    ensures
        forall|k: Seq<u8>| spec_reconcile(m, kind, rel, status).0.contains_key(k)
            ==> m.contains_key(k),
{
}

/// A notification that records a path's stat time: a non-folder `Create`
/// or a `Modify`, processed while the path exists as a regular file.
pub open spec fn is_file_upsert(kind: EventKind, status: PathStatus) -> bool {
    &&& status matches PathStatus::File(_)
    &&& match kind {
        EventKind::Create(sub) => sub != SubKind::Folder,
        EventKind::Modify => true,
        _ => false,
    }
}

/// The index's content after reconciling a sequence of notifications on
/// one rebased path, in arrival order.
pub open spec fn apply_events(
    m: Map<Seq<u8>, u64>,
    rel: Seq<u8>,
    evs: Seq<(EventKind, PathStatus)>,
) -> Map<Seq<u8>, u64>
    decreases evs.len(),
{
    if evs.len() == 0 {
        m
    } else {
        spec_reconcile(apply_events(m, rel, evs.drop_last()), evs.last().0, rel, evs.last().1).0
    }
}

/// After any sequence of `Create`/`Modify` notifications on a path that
/// exists as a regular file when each is processed, the index's entry
/// for the path is exactly the modification time seen at the last one.
pub proof fn lemma_last_upsert_wins(
    m: Map<Seq<u8>, u64>,
    rel: Seq<u8>,
    evs: Seq<(EventKind, PathStatus)>,
)
    requires
        evs.len() > 0,
        forall|i: int| 0 <= i < evs.len() ==> is_file_upsert(#[trigger] evs[i].0, evs[i].1),
    ensures
        apply_events(m, rel, evs).contains_key(rel),
        apply_events(m, rel, evs)[rel] == status_time(evs.last().1),
{
    assert(is_file_upsert(evs[evs.len() - 1].0, evs[evs.len() - 1].1));
}

/// Reconciling any sequence of notifications on one rebased path never
/// touches another path's entry.
pub proof fn lemma_other_paths_untouched(
    m: Map<Seq<u8>, u64>,
    rel: Seq<u8>,
    evs: Seq<(EventKind, PathStatus)>,
    k: Seq<u8>,
)
    requires
        k != rel,
    ensures
        apply_events(m, rel, evs).contains_key(k) == m.contains_key(k),
        m.contains_key(k) ==> apply_events(m, rel, evs)[k] == m[k],
    decreases evs.len(),
{
    if evs.len() > 0 {
        lemma_other_paths_untouched(m, rel, evs.drop_last(), k);
    }
}

} // verus!
