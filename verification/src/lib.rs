//! Core logic of a directory-mirroring watcher.
//!
//! The library keeps a live mirror of a watched "inbox" directory tree in a
//! sibling "clone" tree. It holds the verified heart of that job: the
//! in-memory index of known files, the reconciliation of raw filesystem
//! notifications into normalized add/modify/remove changes, the textual
//! translation of inbox paths to mirror paths, the breadth-first scan state
//! machine, and the retry policy of the mirroring copy/delete operations.
//! All filesystem access, the watch subsystem and the async plumbing live
//! outside the library and hand it plain values.

pub mod args;
pub mod bytes;
pub mod events;
pub mod index;
pub mod mirror;
pub mod paths;
pub mod scan;
