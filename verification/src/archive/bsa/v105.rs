//! Folder records as version 105 of the format lays them out.

use crate::archive::bsa::FolderRecord;
use crate::archive::parse::{spec_to_u32, spec_to_u64, to_u32, to_u64};
use vstd::prelude::*;

verus! {

/// The size in bytes of one folder record.
pub const FOLDER_RECORD_SIZE: usize = 24;

/// The folder record that the first 24 bytes of `value` encode: the name
/// hash, the file count, four bytes that are not used, the offset of the
/// file records, and four more bytes that are not used.
pub open spec fn spec_read_folder_record(value: Seq<u8>) -> FolderRecord {
    FolderRecord {
        name_hash: spec_to_u64(value.subrange(0, 8)),
        file_count: spec_to_u32(value.subrange(8, 12)),
        file_records_offset: spec_to_u32(value.subrange(16, 20)),
    }
}

/// Decodes one folder record.
pub fn read_folder_record(value: &[u8]) -> (record: FolderRecord)
    requires
        value@.len() >= FOLDER_RECORD_SIZE,
    ensures
        record == spec_read_folder_record(value@),
{
    FolderRecord {
        name_hash: to_u64(&value[0..8]),
        file_count: to_u32(&value[8..12]),
        file_records_offset: to_u32(&value[16..20]),
    }
}

} // verus!
