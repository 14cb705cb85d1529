//! The recursive directory scan as a state machine. The scanner owns the
//! breadth-first queue and decides what each examined entry contributes;
//! the caller performs the stats and directory listings and feeds their
//! outcomes back, so a scan collects exactly the regular files reachable
//! from the root, skipping any subtree whose listing fails.

use vstd::prelude::*;
use crate::bytes::clone_bytes;

verus! {

/// What the caller's stat and, for a directory, listing of the front
/// entry showed.
pub enum EntryInfo {
    /// The entry is not a directory: it is collected as a file.
    File,
    /// The entry is a directory that listed successfully, with these
    /// children: they join the queue.
    Dir(Vec<Vec<u8>>),
    /// The entry is a directory whose listing failed: its subtree is
    /// skipped and the caller reports a warning.
    DirUnreadable,
}

/// The state of a breadth-first scan: entries waiting to be examined, in
/// queue order, and the regular files found so far.
pub struct Scanner {
    pending: Vec<Vec<u8>>,
    found: Vec<Vec<u8>>,
}

impl Scanner {
    /// The entries waiting to be examined, front first.
    pub closed spec fn pending(&self) -> Seq<Vec<u8>> {
        self.pending@
    }

    /// The regular files found so far, in the order they were found.
    pub closed spec fn found(&self) -> Seq<Vec<u8>> {
        self.found@
    }

    /// A scan that starts from the given entries of the root directory.
    pub fn new(initial: Vec<Vec<u8>>) -> (s: Self)
        ensures
            s.pending() == initial@,
            s.found() == Seq::<Vec<u8>>::empty(),
    {
        Scanner { pending: initial, found: Vec::new() }
    }

    /// Whether entries are still waiting to be examined.
    pub fn has_pending(&self) -> (r: bool)
        ensures
            r == (self.pending().len() > 0),
    {
        self.pending.len() > 0
    }

    /// The entry at the front of the queue: the next one to stat.
    pub fn front(&self) -> (p: Vec<u8>)
        requires
            self.pending().len() > 0,
        ensures
            p@ == self.pending()[0]@,
    {
        clone_bytes(&self.pending[0])
    }

    /// Consume the front entry. A file is collected; a readable
    /// directory's children join the back of the queue; an unreadable
    /// directory's subtree is skipped.
    pub fn step(&mut self, info: EntryInfo)
        requires
            old(self).pending().len() > 0,
        ensures
            match info {
                EntryInfo::File => final(self).pending() == old(self).pending().drop_first()
                    && final(self).found() == old(self).found().push(old(self).pending()[0]),
                EntryInfo::Dir(children) => final(self).pending() == old(self).pending().drop_first()
                    + children@ && final(self).found() == old(self).found(),
                EntryInfo::DirUnreadable => final(self).pending() == old(
                    self,
                ).pending().drop_first() && final(self).found() == old(self).found(),
            },
    {
        let head = self.pending.remove(0);
        proof {
            assert(self.pending@ =~= old(self).pending().drop_first());
        }
        match info {
            EntryInfo::File => {
                self.found.push(head);
            },
            EntryInfo::Dir(mut children) => {
                self.pending.append(&mut children);
            },
            EntryInfo::DirUnreadable => {},
        }
    }

    /// The scan's result once no entries are pending: the collected
    /// files, or `None` when there were none.
    pub fn finish(self) -> (r: Option<Vec<Vec<u8>>>)
        requires
            self.pending().len() == 0,
        ensures
            match r {
                Some(v) => v@ == self.found() && v@.len() > 0,
                None => self.found().len() == 0,
            },
    {
        if self.found.len() > 0 {
            Some(self.found)
        } else {
            None
        }
    }
}

} // verus!
