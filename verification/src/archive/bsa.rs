//! Decoder for the directory of a BSA archive.

use crate::archive::assets::{assets_of, lemma_assets_of_insert, outcome_of, AssetMap};
use crate::archive::error::{ArchiveParsingError, HeaderDefect};
use crate::archive::parse::{spec_to_u32, spec_to_u64, to_u32, to_u64, to_usize};
use std::collections::{BTreeMap, BTreeSet};
use vstd::prelude::*;

pub mod v103;
pub mod v105;

verus! {

/// The type tag that a BSA archive starts with.
pub const TYPE_ID: [u8; 4] = [0x42, 0x53, 0x41, 0x00];

/// The size in bytes of the header, type tag included.
pub const HEADER_SIZE: usize = 36;

/// The size in bytes of the header fields that follow the type tag.
pub const HEADER_FIELDS_SIZE: usize = 32;

/// The size in bytes of one file record.
pub const FILE_RECORD_SIZE: usize = 16;

/// The archive flag that says that each folder's name stands before its
/// file records.
pub const FOLDER_NAMES_FLAG: u32 = 0x1;

/// The archive flag that says that numbers are stored big-endian.
pub const BIG_ENDIAN_FLAG: u32 = 0x40;

/// The fixed-size header of a BSA archive.
#[derive(Clone, Copy, Debug, PartialEq, Eq)]
pub struct Header {
    pub type_id: [u8; 4],
    pub version: u32,
    pub records_offset: u32,
    pub archive_flags: u32,
    pub folder_count: u32,
    pub total_file_count: u32,
    pub total_folder_names_length: u32,
    pub total_file_names_length: u32,
    pub content_type_flags: u32,
}

impl Header {
    /// The header whose fields are the eight little-endian numbers in the
    /// 32 bytes that follow the type tag.
    pub open spec fn from_fields(bytes: Seq<u8>) -> Header {
        Header {
            type_id: TYPE_ID,
            version: spec_to_u32(bytes.subrange(0, 4)),
            records_offset: spec_to_u32(bytes.subrange(4, 8)),
            archive_flags: spec_to_u32(bytes.subrange(8, 12)),
            folder_count: spec_to_u32(bytes.subrange(12, 16)),
            total_file_count: spec_to_u32(bytes.subrange(16, 20)),
            total_folder_names_length: spec_to_u32(bytes.subrange(20, 24)),
            total_file_names_length: spec_to_u32(bytes.subrange(24, 28)),
            content_type_flags: spec_to_u32(bytes.subrange(28, 32)),
        }
    }

    /// The header that the 32 bytes after the type tag encode, or what is
    /// wrong with it: the records offset must be the header size, and the
    /// big-endian flag must not be set.
    pub open spec fn spec_try_from(bytes: Seq<u8>) -> Result<Header, ArchiveParsingError> {
        let header = Header::from_fields(bytes);
        if header.records_offset != 36 {
            Err(ArchiveParsingError::MalformedHeader(HeaderDefect::RecordsOffset(header.records_offset)))
        } else if header.archive_flags & BIG_ENDIAN_FLAG != 0 {
            Err(ArchiveParsingError::MalformedHeader(HeaderDefect::BigEndian))
        } else {
            Ok(header)
        }
    }

    /// Decodes and validates the header fields that follow the type tag.
    pub fn try_from(value: [u8; 32]) -> (result: Result<Header, ArchiveParsingError>)
        ensures
            result == Header::spec_try_from(value@),
    {
        let bytes = value.as_slice();
        let header = Header {
            type_id: TYPE_ID,
            version: to_u32(&bytes[0..4]),
            records_offset: to_u32(&bytes[4..8]),
            archive_flags: to_u32(&bytes[8..12]),
            folder_count: to_u32(&bytes[12..16]),
            total_file_count: to_u32(&bytes[16..20]),
            total_folder_names_length: to_u32(&bytes[20..24]),
            total_file_names_length: to_u32(&bytes[24..28]),
            content_type_flags: to_u32(&bytes[28..32]),
        };

        if header.records_offset != 36 {
            return Err(ArchiveParsingError::MalformedHeader(HeaderDefect::RecordsOffset(header.records_offset)));
        }

        if (header.archive_flags & BIG_ENDIAN_FLAG) != 0 {
            return Err(ArchiveParsingError::MalformedHeader(HeaderDefect::BigEndian));
        }

        Ok(header)
    }
}

/// One entry of the folder directory.
#[derive(Clone, Copy, Debug, PartialEq, Eq)]
pub struct FolderRecord {
    pub name_hash: u64,
    pub file_count: u32,
    pub file_records_offset: u32,
}

/// How the folder records of an archive are laid out.
#[derive(Clone, Copy, Debug, PartialEq, Eq)]
pub enum FolderRecordFormat {
    /// The layout of versions 103 and 104: 16 bytes per record.
    V103,
    /// The layout of version 105: 24 bytes per record.
    V105,
}

impl FolderRecordFormat {
    /// The layout that an archive of the given version uses, if the version
    /// is supported. Nothing but the version decides it.
    pub open spec fn spec_for_version(version: u32) -> Option<FolderRecordFormat> {
        if version == 103 || version == 104 {
            Some(FolderRecordFormat::V103)
        } else if version == 105 {
            Some(FolderRecordFormat::V105)
        } else {
            None
        }
    }

    /// The layout that an archive of the given version uses, if the version
    /// is supported.
    pub fn for_version(version: u32) -> (format: Option<FolderRecordFormat>)
        ensures
            format == FolderRecordFormat::spec_for_version(version),
    {
        match version {
            103 | 104 => Some(FolderRecordFormat::V103),
            105 => Some(FolderRecordFormat::V105),
            _ => None,
        }
    }

    /// The size in bytes of one folder record.
    pub open spec fn spec_record_size(self) -> usize {
        match self {
            FolderRecordFormat::V103 => v103::FOLDER_RECORD_SIZE,
            FolderRecordFormat::V105 => v105::FOLDER_RECORD_SIZE,
        }
    }

    /// The size in bytes of one folder record.
    #[verifier::when_used_as_spec(spec_record_size)]
    pub fn record_size(self) -> (size: usize)
        ensures
            size == self.spec_record_size(),
            size == 16 || size == 24,
    {
        match self {
            FolderRecordFormat::V103 => v103::FOLDER_RECORD_SIZE,
            FolderRecordFormat::V105 => v105::FOLDER_RECORD_SIZE,
        }
    }

    /// The folder record that the first bytes of `value` encode.
    pub open spec fn spec_read_folder_record(self, value: Seq<u8>) -> FolderRecord {
        match self {
            FolderRecordFormat::V103 => v103::spec_read_folder_record(value),
            FolderRecordFormat::V105 => v105::spec_read_folder_record(value),
        }
    }

    /// Decodes one folder record.
    pub fn read_folder_record(self, value: &[u8]) -> (record: FolderRecord)
        requires
            value@.len() >= self.spec_record_size(),
        ensures
            record == self.spec_read_folder_record(value@),
    {
        match self {
            FolderRecordFormat::V103 => v103::read_folder_record(value),
            FolderRecordFormat::V105 => v105::read_folder_record(value),
        }
    }
}

/// The size in bytes of the block of folder records.
pub open spec fn folder_block_size(header: Header, format: FolderRecordFormat) -> int {
    match format {
        FolderRecordFormat::V103 => 16 * header.folder_count,
        FolderRecordFormat::V105 => 24 * header.folder_count,
    }
}

/// The size in bytes of the block that follows the folder records: for each
/// folder the length byte of its name, its name, and its file records.
pub open spec fn file_block_size(header: Header) -> int {
    header.folder_count + header.total_folder_names_length + 16 * header.total_file_count
}

/// The number of bytes after the header that hold the directory of an
/// archive.
pub open spec fn spec_directory_size(header: Header, format: FolderRecordFormat) -> int {
    folder_block_size(header, format) + file_block_size(header)
}

/// The position in the archive at which the block after the folder records
/// is taken to start when a folder record's offset field is resolved.
pub open spec fn offset_baseline(header: Header, format: FolderRecordFormat) -> int {
    36 + folder_block_size(header, format) + header.total_file_names_length
}

/// The folder record with the given index in the block of folder records.
pub open spec fn folder_record(format: FolderRecordFormat, folders: Seq<u8>, index: int) -> FolderRecord {
    match format {
        FolderRecordFormat::V103 => v103::spec_read_folder_record(
            folders.subrange(16 * index, 16 * index + 16),
        ),
        FolderRecordFormat::V105 => v105::spec_read_folder_record(
            folders.subrange(24 * index, 24 * index + 24),
        ),
    }
}

/// The position in `block` at which the file records of a folder start, or
/// `None` if the folder's offset field leads outside the block.
///
/// Without the folder names flag the offset, less the baseline, is that
/// position. With it the offset leads to the length byte of the folder's
/// name, and the file records follow the name.
pub open spec fn spec_file_records_start(
    header: Header,
    format: FolderRecordFormat,
    record: FolderRecord,
    block: Seq<u8>,
) -> Option<int> {
    let position = record.file_records_offset - offset_baseline(header, format);
    if position < 0 {
        None
    } else if header.archive_flags & FOLDER_NAMES_FLAG == 0 {
        if position <= block.len() {
            Some(position)
        } else {
            None
        }
    } else if position < block.len() {
        let start = position + 1 + block[position];
        if start <= block.len() {
            Some(start)
        } else {
            None
        }
    } else {
        None
    }
}

/// The file name hash in the file record with the given index, counted from
/// the record at `start`.
pub open spec fn file_hash(block: Seq<u8>, start: int, index: int) -> u64 {
    spec_to_u64(block.subrange(start + 16 * index, start + 16 * index + 8))
}

/// The file name hashes of `count` file records in a row.
pub open spec fn file_hashes(block: Seq<u8>, start: int, count: nat) -> Seq<u64> {
    Seq::new(count, |index: int| file_hash(block, start, index))
}

/// The first element of `hashes` that is equal to an earlier one.
pub open spec fn first_repeat(hashes: Seq<u64>) -> Option<u64>
    decreases hashes.len(),
{
    if hashes.len() == 0 {
        None
    } else {
        match first_repeat(hashes.drop_last()) {
            Some(hash) => Some(hash),
            None => if hashes.drop_last().contains(hashes.last()) {
                Some(hashes.last())
            } else {
                None
            },
        }
    }
}

/// The file hashes of a folder whose file records start at `start`: the
/// records must lie in the block, and no hash may occur twice.
pub open spec fn folder_file_set(record: FolderRecord, block: Seq<u8>, start: int) -> Result<
    Set<u64>,
    ArchiveParsingError,
> {
    if start + 16 * record.file_count > block.len() {
        Err(ArchiveParsingError::InvalidOffset)
    } else {
        let hashes = file_hashes(block, start, record.file_count as nat);
        match first_repeat(hashes) {
            Some(file_hash) => Err(
                ArchiveParsingError::DuplicateFileHash { folder_hash: record.name_hash, file_hash },
            ),
            None => Ok(hashes.to_set()),
        }
    }
}

/// The file hashes of a folder, or the error that its record leads to.
pub open spec fn folder_files(
    header: Header,
    format: FolderRecordFormat,
    record: FolderRecord,
    block: Seq<u8>,
) -> Result<Set<u64>, ArchiveParsingError> {
    match spec_file_records_start(header, format, record, block) {
        None => Err(ArchiveParsingError::InvalidOffset),
        Some(start) => folder_file_set(record, block, start),
    }
}

/// The asset map of the first `count` folders of an archive, taken in the
/// order of their records, or the error of the first folder that has one.
/// A folder whose hash an earlier folder has is an error, before anything
/// else about it is looked at.
pub open spec fn decode_folders(
    header: Header,
    format: FolderRecordFormat,
    folders: Seq<u8>,
    block: Seq<u8>,
    count: nat,
) -> Result<Map<u64, Set<u64>>, ArchiveParsingError>
    decreases count,
{
    if count == 0 {
        Ok(Map::empty())
    } else {
        match decode_folders(header, format, folders, block, (count - 1) as nat) {
            Err(error) => Err(error),
            Ok(assets) => {
                let record = folder_record(format, folders, count - 1);
                if assets.contains_key(record.name_hash) {
                    Err(ArchiveParsingError::DuplicateFolderHash(record.name_hash))
                } else {
                    match folder_files(header, format, record, block) {
                        Err(error) => Err(error),
                        Ok(files) => Ok(assets.insert(record.name_hash, files)),
                    }
                }
            },
        }
    }
}

/// The asset map that the directory of an archive encodes, where `content`
/// holds the bytes of the archive that follow the header.
pub open spec fn decode_directory(header: Header, format: FolderRecordFormat, content: Seq<u8>) -> Result<
    Map<u64, Set<u64>>,
    ArchiveParsingError,
> {
    let folders_size = folder_block_size(header, format);
    if content.len() < spec_directory_size(header, format) {
        Err(ArchiveParsingError::IoError)
    } else {
        decode_folders(
            header,
            format,
            content.subrange(0, folders_size),
            content.subrange(folders_size, spec_directory_size(header, format)),
            header.folder_count as nat,
        )
    }
}

/// Once a repeat is found in a prefix, it is the first repeat of the whole.
pub proof fn lemma_first_repeat_of_prefix(hashes: Seq<u64>, length: int)
    requires
        0 <= length <= hashes.len(),
        first_repeat(hashes.take(length)) is Some,
    ensures
        first_repeat(hashes) == first_repeat(hashes.take(length)),
    decreases hashes.len(),
{
    if length == hashes.len() {
        assert(hashes.take(length) =~= hashes);
    } else {
        assert(hashes.drop_last().take(length) =~= hashes.take(length));
        lemma_first_repeat_of_prefix(hashes.drop_last(), length);
    }
}

/// What one more element does to the first repeat of a prefix without one.
pub proof fn lemma_first_repeat_step(hashes: Seq<u64>, length: int)
    requires
        0 <= length < hashes.len(),
        first_repeat(hashes.take(length)) is None,
    ensures
        first_repeat(hashes.take(length + 1)) == if hashes.take(length).contains(hashes[length]) {
            Some(hashes[length])
        } else {
            None
        },
        hashes.take(length + 1).to_set() == hashes.take(length).to_set().insert(hashes[length]),
{
    let longer = hashes.take(length + 1);
    assert(longer.drop_last() =~= hashes.take(length));
    assert(longer.last() == hashes[length]);
    assert(longer =~= hashes.take(length).push(hashes[length]));
    assert forall|hash: u64| longer.contains(hash) <==> (hashes.take(length).contains(hash) || hash
        == hashes[length]) by {
        if longer.contains(hash) {
            let at = choose|at: int| 0 <= at < longer.len() && longer[at] == hash;
            if at < length {
                assert(hashes.take(length)[at] == hash);
            }
        }
        if hashes.take(length).contains(hash) {
            let at = choose|at: int| 0 <= at < length && hashes.take(length)[at] == hash;
            assert(longer[at] == hash);
        }
        if hash == hashes[length] {
            assert(longer[length] == hash);
        }
    }
    assert(longer.to_set() =~= hashes.take(length).to_set().insert(hashes[length]));
}

/// An error among the first folders is the error of the whole directory.
pub proof fn lemma_decode_folders_error(
    header: Header,
    format: FolderRecordFormat,
    folders: Seq<u8>,
    block: Seq<u8>,
    count: nat,
    total: nat,
)
    requires
        count <= total,
        decode_folders(header, format, folders, block, count) is Err,
    ensures
        decode_folders(header, format, folders, block, total) == decode_folders(
            header,
            format,
            folders,
            block,
            count,
        ),
    decreases total,
{
    if count < total {
        lemma_decode_folders_error(header, format, folders, block, count, (total - 1) as nat);
    }
}

/// Computes the size in bytes of the block of folder records.
pub fn folder_records_size(header: &Header, format: FolderRecordFormat) -> (size: u64)
    ensures
        size == folder_block_size(*header, format),
{
    match format {
        FolderRecordFormat::V103 => 16 * (header.folder_count as u64),
        FolderRecordFormat::V105 => 24 * (header.folder_count as u64),
    }
}

/// Computes the size in bytes of the block that follows the folder records.
pub fn file_records_size(header: &Header) -> (size: u64)
    ensures
        size == file_block_size(*header),
{
    header.folder_count as u64 + header.total_folder_names_length as u64 + 16 * (
    header.total_file_count as u64)
}

/// Computes the number of bytes after the header that hold the directory
/// of an archive: what has to be read of it to decode it.
pub fn directory_size(header: &Header, format: FolderRecordFormat) -> (size: u64)
    ensures
        size == spec_directory_size(*header, format),
{
    folder_records_size(header, format) + file_records_size(header)
}

/// Finds where in `block` the file records of a folder start.
pub fn file_records_start(
    header: &Header,
    format: FolderRecordFormat,
    record: &FolderRecord,
    block: &[u8],
) -> (start: Option<usize>)
    ensures
        match start {
            Some(at) => spec_file_records_start(*header, format, *record, block@) == Some(at as int),
            None => spec_file_records_start(*header, format, *record, block@) is None,
        },
{
    let baseline: u64 = 36 + folder_records_size(header, format)
        + header.total_file_names_length as u64;
    let offset: u64 = record.file_records_offset as u64;
    if offset < baseline {
        return None;
    }
    let position: u64 = offset - baseline;
    let length: u64 = block.len() as u64;

    if (header.archive_flags & FOLDER_NAMES_FLAG) == 0 {
        if position <= length {
            Some(position as usize)
        } else {
            None
        }
    } else if position < length {
        let name_length: u64 = block[position as usize] as u64;
        let start: u64 = position + 1 + name_length;
        if start <= length {
            Some(start as usize)
        } else {
            None
        }
    } else {
        None
    }
}

/// Reads the file name hashes of a folder whose file records start at
/// `start`.
pub fn read_file_hashes(record: &FolderRecord, block: &[u8], start: usize) -> (result: Result<
    BTreeSet<u64>,
    ArchiveParsingError,
>)
    requires
        start <= block@.len(),
    ensures
        match result {
            Ok(files) => folder_file_set(*record, block@, start as int) == Ok::<
                Set<u64>,
                ArchiveParsingError,
            >(files@),
            Err(error) => folder_file_set(*record, block@, start as int) == Err::<
                Set<u64>,
                ArchiveParsingError,
            >(error),
        },
{
    let available: u64 = (block.len() - start) as u64;
    if 16 * (record.file_count as u64) > available {
        return Err(ArchiveParsingError::InvalidOffset);
    }
    let count: usize = to_usize(record.file_count);
    let ghost hashes = file_hashes(block@, start as int, count as nat);

    let mut files: BTreeSet<u64> = BTreeSet::new();
    let mut index: usize = 0;
    proof {
        assert(hashes.take(0).to_set() =~= Set::<u64>::empty());
    }
    while index < count
        invariant
            index <= count,
            count == record.file_count,
            start + 16 * count <= block@.len() <= usize::MAX,
            hashes == file_hashes(block@, start as int, count as nat),
            files@ == hashes.take(index as int).to_set(),
            first_repeat(hashes.take(index as int)) is None,
        decreases count - index,
    {
        let at: usize = start + 16 * index;
        let hash: u64 = to_u64(&block[at..at + 8]);
        proof {
            assert(hash == hashes[index as int]);
            lemma_first_repeat_step(hashes, index as int);
        }
        if !files.insert(hash) {
            proof {
                lemma_first_repeat_of_prefix(hashes, index + 1);
            }
            return Err(
                ArchiveParsingError::DuplicateFileHash {
                    folder_hash: record.name_hash,
                    file_hash: hash,
                },
            );
        }
        index = index + 1;
    }
    proof {
        assert(hashes.take(count as int) =~= hashes);
    }
    Ok(files)
}

/// Decodes the directory of an archive whose header is `header` and whose
/// folder records have the given layout. `content` holds the bytes of the
/// archive that follow the header.
///
/// The result is the complete asset map, or the error of the first folder
/// that has one; an input that ends before the directory does is an
/// `IoError`.
pub fn read_assets_with_header(content: &[u8], header: &Header, format: FolderRecordFormat) -> (result:
    Result<AssetMap, ArchiveParsingError>)
    ensures
        outcome_of(result) == decode_directory(*header, format, content@),
{
    let record_size: usize = format.record_size();
    let folders_size: u64 = folder_records_size(header, format);
    let files_size: u64 = file_records_size(header);

    if (content.len() as u64) < folders_size + files_size {
        return Err(ArchiveParsingError::IoError);
    }
    let folders_end: usize = folders_size as usize;
    let folders_buffer = &content[0..folders_end];
    let file_records_buffer = &content[folders_end..folders_end + files_size as usize];
    let folder_count: usize = to_usize(header.folder_count);

    let mut assets: AssetMap = BTreeMap::new();
    let mut index: usize = 0;
    proof {
        assert(assets_of(assets) =~= Map::<u64, Set<u64>>::empty());
    }
    while index < folder_count
        invariant
            index <= folder_count,
            folder_count == header.folder_count,
            record_size == format.spec_record_size(),
            content@.len() >= spec_directory_size(*header, format),
            folders_buffer@ == content@.subrange(0, folder_block_size(*header, format)),
            file_records_buffer@ == content@.subrange(
                folder_block_size(*header, format),
                spec_directory_size(*header, format),
            ),
            decode_folders(
                *header,
                format,
                folders_buffer@,
                file_records_buffer@,
                index as nat,
            ) == Ok::<Map<u64, Set<u64>>, ArchiveParsingError>(assets_of(assets)),
        decreases folder_count - index,
    {
        let chunk_start: usize = match format {
            FolderRecordFormat::V103 => 16 * index,
            FolderRecordFormat::V105 => 24 * index,
        };
        let chunk = &folders_buffer[chunk_start..chunk_start + record_size];
        let folder_record = format.read_folder_record(chunk);
        assert(folder_record == self::folder_record(format, folders_buffer@, index as int));
        let ghost next = (index + 1) as nat;

        if assets.contains_key(&folder_record.name_hash) {
            proof {
                lemma_decode_folders_error(
                    *header,
                    format,
                    folders_buffer@,
                    file_records_buffer@,
                    next,
                    folder_count as nat,
                );
            }
            return Err(ArchiveParsingError::DuplicateFolderHash(folder_record.name_hash));
        }

        let file_records_offset = match file_records_start(
            header,
            format,
            &folder_record,
            file_records_buffer,
        ) {
            Some(offset) => offset,
            None => {
                proof {
                    lemma_decode_folders_error(
                        *header,
                        format,
                        folders_buffer@,
                        file_records_buffer@,
                        next,
                        folder_count as nat,
                    );
                }
                return Err(ArchiveParsingError::InvalidOffset);
            },
        };

        let file_hashes = match read_file_hashes(&folder_record, file_records_buffer, file_records_offset) {
            Ok(hashes) => hashes,
            Err(error) => {
                proof {
                    lemma_decode_folders_error(
                        *header,
                        format,
                        folders_buffer@,
                        file_records_buffer@,
                        next,
                        folder_count as nat,
                    );
                }
                return Err(error);
            },
        };

        let ghost before = assets;
        assets.insert(folder_record.name_hash, file_hashes);
        proof {
            lemma_assets_of_insert(before, assets, folder_record.name_hash, file_hashes);
        }
        index = index + 1;
    }

    Ok(assets)
}

/// The asset map that an archive encodes, where `content` holds the bytes
/// of the archive that follow the type tag: the header fields, then the
/// directory.
///
/// The header is validated first, then the version; the version alone
/// decides how the folder records are laid out.
pub open spec fn decode_archive(content: Seq<u8>) -> Result<Map<u64, Set<u64>>, ArchiveParsingError> {
    if content.len() < 32 {
        Err(ArchiveParsingError::IoError)
    } else {
        match Header::spec_try_from(content.subrange(0, 32)) {
            Err(error) => Err(error),
            Ok(header) => match FolderRecordFormat::spec_for_version(header.version) {
                None => Err(ArchiveParsingError::UnsupportedVersion(header.version)),
                Some(format) => decode_directory(header, format, content.skip(32)),
            },
        }
    }
}

/// Decodes the assets of a BSA archive. `content` holds the bytes of the
/// archive that follow the type tag.
pub fn read_assets(content: &[u8]) -> (result: Result<AssetMap, ArchiveParsingError>)
    ensures
        outcome_of(result) == decode_archive(content@),
{
    if content.len() < HEADER_FIELDS_SIZE {
        return Err(ArchiveParsingError::IoError);
    }
    let mut header_buffer: [u8; 32] = [0; 32];
    let mut index: usize = 0;
    while index < 32
        invariant
            index <= 32 <= content@.len(),
            forall|i: int| 0 <= i < index ==> header_buffer@[i] == content@[i],
        decreases 32 - index,
    {
        header_buffer[index] = content[index];
        index = index + 1;
    }
    assert(header_buffer@ =~= content@.subrange(0, 32));

    let header = match Header::try_from(header_buffer) {
        Ok(header) => header,
        Err(error) => {
            return Err(error);
        },
    };
    let directory = &content[32..content.len()];
    assert(directory@ =~= content@.skip(32));

    match FolderRecordFormat::for_version(header.version) {
        Some(format) => read_assets_with_header(directory, &header, format),
        None => Err(ArchiveParsingError::UnsupportedVersion(header.version)),
    }
}

/// The width of a folder record follows from the version alone: 16 bytes
/// for versions 103 and 104, 24 bytes for version 105, and no other version
/// has a layout.
pub proof fn law_record_width_follows_version(version: u32)
    ensures
        version == 103 || version == 104 ==> FolderRecordFormat::spec_for_version(version) == Some(
            FolderRecordFormat::V103,
        ) && FolderRecordFormat::V103.spec_record_size() == 16,
        version == 105 ==> FolderRecordFormat::spec_for_version(version) == Some(
            FolderRecordFormat::V105,
        ) && FolderRecordFormat::V105.spec_record_size() == 24,
        version != 103 && version != 104 && version != 105 ==> FolderRecordFormat::spec_for_version(
            version,
        ) is None,
{
}

/// Two archives whose headers have the same version are decoded with the
/// same folder record layout, whatever else their headers hold: an archive
/// with a valid header of a supported version is decoded as its directory
/// is with the layout of that version.
pub proof fn law_archive_layout_follows_version(content: Seq<u8>)
    requires
        content.len() >= 32,
        Header::spec_try_from(content.subrange(0, 32)) is Ok,
    ensures
        ({
            let header = Header::from_fields(content.subrange(0, 32));
            match FolderRecordFormat::spec_for_version(header.version) {
                Some(format) => decode_archive(content) == decode_directory(
                    header,
                    format,
                    content.skip(32),
                ),
                None => decode_archive(content) == Err::<Map<u64, Set<u64>>, ArchiveParsingError>(
                    ArchiveParsingError::UnsupportedVersion(header.version),
                ),
            }
        }),
{
}

/// The folders of an asset map that was decoded from the first `count`
/// folder records are the name hashes of those records.
pub proof fn lemma_decoded_folders(
    header: Header,
    format: FolderRecordFormat,
    folders: Seq<u8>,
    block: Seq<u8>,
    count: nat,
)
    requires
        decode_folders(header, format, folders, block, count) is Ok,
    ensures
        forall|hash: u64|
            decode_folders(header, format, folders, block, count)->Ok_0.contains_key(hash)
                <==> exists|index: int|
                0 <= index < count && (#[trigger] folder_record(format, folders, index)).name_hash
                    == hash,
    decreases count,
{
    if count > 0 {
        let before = (count - 1) as nat;
        lemma_decoded_folders(header, format, folders, block, before);
        let assets = decode_folders(header, format, folders, block, before)->Ok_0;
        let record = folder_record(format, folders, count - 1);
        assert forall|hash: u64|
            decode_folders(header, format, folders, block, count)->Ok_0.contains_key(hash)
                <==> exists|index: int|
                0 <= index < count && (#[trigger] folder_record(format, folders, index)).name_hash
                    == hash by {
            if assets.contains_key(hash) {
                let index = choose|index: int|
                    0 <= index < before && (#[trigger] folder_record(
                        format,
                        folders,
                        index,
                    )).name_hash == hash;
                assert(0 <= index < count);
            }
            if hash == record.name_hash {
                assert(folder_record(format, folders, count - 1).name_hash == hash);
            }
        }
    }
}

/// An archive in which two folder records have the same name hash is
/// never decoded, wherever the two records stand.
pub proof fn law_duplicate_folder_hash_fails(
    header: Header,
    format: FolderRecordFormat,
    folders: Seq<u8>,
    block: Seq<u8>,
    count: nat,
    first: int,
    second: int,
)
    requires
        0 <= first < second < count,
        folder_record(format, folders, first).name_hash == folder_record(
            format,
            folders,
            second,
        ).name_hash,
    ensures
        decode_folders(header, format, folders, block, count) is Err,
{
    let until = second as nat;
    if decode_folders(header, format, folders, block, until) is Ok {
        lemma_decoded_folders(header, format, folders, block, until);
        assert(decode_folders(header, format, folders, block, until + 1) is Err);
    }
    if decode_folders(header, format, folders, block, until) is Err {
        lemma_decode_folders_error(header, format, folders, block, until, until + 1);
    }
    lemma_decode_folders_error(header, format, folders, block, until + 1, count);
}

/// Where the folders before a folder record are decoded without error and
/// one of them has the record's name hash, the archive is rejected with
/// `DuplicateFolderHash` and that hash, wherever the record stands and
/// whatever follows it.
pub proof fn law_duplicate_folder_hash_error(
    header: Header,
    format: FolderRecordFormat,
    folders: Seq<u8>,
    block: Seq<u8>,
    count: nat,
    first: int,
    second: int,
)
    requires
        0 <= first < second < count,
        folder_record(format, folders, first).name_hash == folder_record(
            format,
            folders,
            second,
        ).name_hash,
        decode_folders(header, format, folders, block, second as nat) is Ok,
    ensures
        decode_folders(header, format, folders, block, count) == Err::<
            Map<u64, Set<u64>>,
            ArchiveParsingError,
        >(
            ArchiveParsingError::DuplicateFolderHash(
                folder_record(format, folders, second).name_hash,
            ),
        ),
{
    let until = second as nat;
    lemma_decoded_folders(header, format, folders, block, until);
    assert(decode_folders(header, format, folders, block, until + 1) is Err);
    lemma_decode_folders_error(header, format, folders, block, until + 1, count);
}

} // verus!
