//! What is known of the files on disk: which paths lead to a file, and which
//! file that is. The library reads no disk; its caller looks, and records
//! here what it saw.

use crate::path::{FilePath, PathText};
use vstd::prelude::*;

verus! {

/// What the operating system tells one file from another by: the volume or
/// device that holds the file, and the file's index or inode number on it.
#[derive(Clone, Copy, Debug, PartialEq, Eq)]
pub struct FileIdentity {
    pub volume: u64,
    pub index: u64,
}

/// A path that leads to a file, and the identity of that file if it could be
/// had.
pub struct FileEntry {
    pub path: FilePath,
    pub identity: Option<FileIdentity>,
}

/// A record of the files that were found on disk. A path that is not in it
/// counts as leading to no file.
pub struct FileSystemSnapshot {
    pub entries: Vec<FileEntry>,
}

/// What a list of entries says of a path: nothing if no entry has the path,
/// else the identity in the first entry that has it.
pub open spec fn spec_lookup(entries: Seq<FileEntry>, path: PathText) -> Option<Option<FileIdentity>>
    decreases entries.len(),
{
    if entries.len() == 0 {
        None
    } else if entries.first().path@ == path {
        Some(entries.first().identity)
    } else {
        spec_lookup(entries.drop_first(), path)
    }
}

/// Whether a path leads to a file, as far as the entries say.
pub open spec fn spec_file_exists(entries: Seq<FileEntry>, path: PathText) -> bool {
    spec_lookup(entries, path) is Some
}

/// The identity of the file that a path leads to, as far as the entries say.
pub open spec fn spec_identity(entries: Seq<FileEntry>, path: PathText) -> Option<FileIdentity> {
    match spec_lookup(entries, path) {
        Some(identity) => identity,
        None => None,
    }
}

/// Whether two paths lead to the same file: they do if they are the same
/// text, whether or not a file is there; else only if both lead to a file
/// whose identity is known, and the identities are equal.
pub open spec fn spec_are_file_paths_equivalent(
    entries: Seq<FileEntry>,
    lhs: PathText,
    rhs: PathText,
) -> bool {
    lhs == rhs || match (spec_identity(entries, lhs), spec_identity(entries, rhs)) {
        (Some(left), Some(right)) => left == right,
        _ => false,
    }
}

impl FileSystemSnapshot {
    /// A record of no files.
    pub fn new() -> (snapshot: FileSystemSnapshot)
        ensures
            snapshot.entries@.len() == 0,
    {
        FileSystemSnapshot { entries: Vec::new() }
    }

    /// Records that `path` leads to a file with the given identity. What
    /// was recorded of the path before stays as it is.
    pub fn record(&mut self, path: FilePath, identity: Option<FileIdentity>)
        ensures
            final(self).entries@ == old(self).entries@.push(FileEntry { path, identity }),
    {
        self.entries.push(FileEntry { path, identity });
    }

    /// Looks up what is recorded of a path.
    pub fn lookup(&self, path: &FilePath) -> (found: Option<Option<FileIdentity>>)
        ensures
            found == spec_lookup(self.entries@, path@),
    {
        let mut index: usize = 0;
        assert(self.entries@.skip(0) =~= self.entries@);
        while index < self.entries.len()
            invariant
                index <= self.entries@.len(),
                spec_lookup(self.entries@, path@) == spec_lookup(
                    self.entries@.skip(index as int),
                    path@,
                ),
            decreases self.entries@.len() - index,
        {
            let entry = &self.entries[index];
            proof {
                let rest = self.entries@.skip(index as int);
                assert(rest.first() == self.entries@[index as int]);
                assert(rest.drop_first() =~= self.entries@.skip(index + 1));
            }
            if entry.path.same_text(path) {
                return Some(entry.identity);
            }
            index = index + 1;
        }
        None
    }

    /// Whether a path leads to a file.
    pub fn file_exists(&self, path: &FilePath) -> (found: bool)
        ensures
            found == spec_file_exists(self.entries@, path@),
    {
        self.lookup(path).is_some()
    }

    /// The identity of the file that a path leads to.
    pub fn identity(&self, path: &FilePath) -> (identity: Option<FileIdentity>)
        ensures
            identity == spec_identity(self.entries@, path@),
    {
        match self.lookup(path) {
            Some(identity) => identity,
            None => None,
        }
    }
}

/// Tells whether two paths lead to the same file.
pub fn are_file_paths_equivalent(lhs: &FilePath, rhs: &FilePath, files: &FileSystemSnapshot) -> (same:
    bool)
    ensures
        same == spec_are_file_paths_equivalent(files.entries@, lhs@, rhs@),
{
    if lhs.same_text(rhs) {
        return true;
    }
    let lhs_identity = match files.identity(lhs) {
        Some(identity) => identity,
        None => {
            return false;
        },
    };
    let rhs_identity = match files.identity(rhs) {
        Some(identity) => identity,
        None => {
            return false;
        },
    };

    lhs_identity.volume == rhs_identity.volume && lhs_identity.index == rhs_identity.index
}

} // verus!
