//! The ways in which reading an archive can fail.

use vstd::prelude::*;

verus! {

/// What is wrong with the fixed-size header of an archive.
#[derive(Clone, Copy, Debug, PartialEq, Eq)]
pub enum HeaderDefect {
    /// The records offset field holds the given value, which is not the
    /// size of the header.
    RecordsOffset(u32),
    /// The archive flags say that numbers are stored big-endian.
    BigEndian,
}

/// Why an archive could not be decoded.
#[derive(Clone, Copy, Debug, PartialEq, Eq)]
pub enum ArchiveParsingError {
    /// The archive could not be opened, or it ended before the bytes that
    /// had to be read from it.
    IoError,
    /// The header is not one that the decoder accepts.
    MalformedHeader(HeaderDefect),
    /// The header names the given version, which is not supported.
    UnsupportedVersion(u32),
    /// A folder record points outside the block of file records.
    InvalidOffset,
    /// The given folder name hash occurs a second time in the archive.
    DuplicateFolderHash(u64),
    /// A file name hash occurs a second time in the same folder.
    DuplicateFileHash { folder_hash: u64, file_hash: u64 },
    /// The archive starts with a type tag that belongs to no known format,
    /// or to a format for which no decoder was supplied.
    UnsupportedFormat([u8; 4]),
}

} // verus!
