use std::collections::{BTreeMap, BTreeSet};

use libloot::archive::bsa::v103;
use libloot::archive::bsa::v105;
use libloot::archive::bsa::{
    directory_size, file_records_start, read_assets, read_assets_with_header, read_file_hashes,
    FolderRecord, FolderRecordFormat, Header, FILE_RECORD_SIZE, HEADER_SIZE,
};
use libloot::archive::error::{ArchiveParsingError, HeaderDefect};

fn header_fields(
    version: u32,
    records_offset: u32,
    archive_flags: u32,
    folder_count: u32,
    total_file_count: u32,
    total_folder_names_length: u32,
    total_file_names_length: u32,
) -> [u8; 32] {
    let mut bytes = [0u8; 32];
    let fields = [
        version,
        records_offset,
        archive_flags,
        folder_count,
        total_file_count,
        total_folder_names_length,
        total_file_names_length,
        0x0102_0304,
    ];
    for (index, field) in fields.iter().enumerate() {
        bytes[index * 4..index * 4 + 4].copy_from_slice(&field.to_le_bytes());
    }
    bytes
}

fn header(version: u32, flags: u32, folders: u32, files: u32, names: u32, file_names: u32) -> Header {
    Header::try_from(header_fields(version, 36, flags, folders, files, names, file_names)).unwrap()
}

fn folder_record_v103(hash: u64, count: u32, offset: u32) -> Vec<u8> {
    let mut bytes = Vec::new();
    bytes.extend_from_slice(&hash.to_le_bytes());
    bytes.extend_from_slice(&count.to_le_bytes());
    bytes.extend_from_slice(&offset.to_le_bytes());
    bytes
}

fn folder_record_v105(hash: u64, count: u32, offset: u32) -> Vec<u8> {
    let mut bytes = Vec::new();
    bytes.extend_from_slice(&hash.to_le_bytes());
    bytes.extend_from_slice(&count.to_le_bytes());
    bytes.extend_from_slice(&0xDEAD_BEEFu32.to_le_bytes());
    bytes.extend_from_slice(&offset.to_le_bytes());
    bytes.extend_from_slice(&0xFEED_F00Du32.to_le_bytes());
    bytes
}

fn file_record(hash: u64) -> Vec<u8> {
    let mut bytes = Vec::new();
    bytes.extend_from_slice(&hash.to_le_bytes());
    bytes.extend_from_slice(&[0xAA; 8]);
    bytes
}

fn assets(entries: &[(u64, &[u64])]) -> BTreeMap<u64, BTreeSet<u64>> {
    entries
        .iter()
        .map(|(folder, files)| (*folder, files.iter().copied().collect()))
        .collect()
}

/// Two folders without names in the records block: folder 7 with files 1
/// and 2, folder 9 with file 3. The header counts two names of length 4.
fn two_folders(version: u32) -> (Header, Vec<u8>) {
    let header = header(version, 0, 2, 3, 8, 5);
    let record_size: u32 = if version == 105 { 24 } else { 16 };
    let baseline = 36 + 2 * record_size + 5;
    let mut content = Vec::new();
    if version == 105 {
        content.extend(folder_record_v105(7, 2, baseline));
        content.extend(folder_record_v105(9, 1, baseline + 32));
    } else {
        content.extend(folder_record_v103(7, 2, baseline));
        content.extend(folder_record_v103(9, 1, baseline + 32));
    }
    content.extend(file_record(1));
    content.extend(file_record(2));
    content.extend(file_record(3));
    content.extend([0u8; 10]);
    (header, content)
}

#[test]
fn header_try_from_reads_every_field() {
    let header = Header::try_from(header_fields(104, 36, 0x3, 5, 6, 7, 8)).unwrap();

    assert_eq!(*b"BSA\0", header.type_id);
    assert_eq!(104, header.version);
    assert_eq!(36, header.records_offset);
    assert_eq!(3, header.archive_flags);
    assert_eq!(5, header.folder_count);
    assert_eq!(6, header.total_file_count);
    assert_eq!(7, header.total_folder_names_length);
    assert_eq!(8, header.total_file_names_length);
    assert_eq!(0x0102_0304, header.content_type_flags);
    assert_eq!(36, HEADER_SIZE);
    assert_eq!(16, FILE_RECORD_SIZE);
}

#[test]
fn header_try_from_rejects_another_records_offset() {
    assert_eq!(
        Err(ArchiveParsingError::MalformedHeader(
            HeaderDefect::RecordsOffset(37)
        )),
        Header::try_from(header_fields(104, 37, 0, 0, 0, 0, 0))
    );
    assert_eq!(
        Err(ArchiveParsingError::MalformedHeader(
            HeaderDefect::RecordsOffset(0)
        )),
        Header::try_from(header_fields(104, 0, 0x40, 0, 0, 0, 0))
    );
}

#[test]
fn header_try_from_rejects_big_endian_archives() {
    assert_eq!(
        Err(ArchiveParsingError::MalformedHeader(HeaderDefect::BigEndian)),
        Header::try_from(header_fields(104, 36, 0x40, 0, 0, 0, 0))
    );
    assert_eq!(
        Err(ArchiveParsingError::MalformedHeader(HeaderDefect::BigEndian)),
        Header::try_from(header_fields(104, 36, 0xFFFF_FFFF, 0, 0, 0, 0))
    );
    assert!(Header::try_from(header_fields(104, 36, 0xFFFF_FFBF, 0, 0, 0, 0)).is_ok());
}

#[test]
fn header_try_from_accepts_any_version() {
    assert_eq!(
        7,
        Header::try_from(header_fields(7, 36, 0, 0, 0, 0, 0))
            .unwrap()
            .version
    );
}

#[test]
fn folder_record_width_follows_the_version() {
    assert_eq!(Some(FolderRecordFormat::V103), FolderRecordFormat::for_version(103));
    assert_eq!(Some(FolderRecordFormat::V103), FolderRecordFormat::for_version(104));
    assert_eq!(Some(FolderRecordFormat::V105), FolderRecordFormat::for_version(105));
    assert_eq!(None, FolderRecordFormat::for_version(102));
    assert_eq!(None, FolderRecordFormat::for_version(106));
    assert_eq!(None, FolderRecordFormat::for_version(0));
    assert_eq!(16, FolderRecordFormat::V103.record_size());
    assert_eq!(24, FolderRecordFormat::V105.record_size());
    assert_eq!(16, v103::FOLDER_RECORD_SIZE);
    assert_eq!(24, v105::FOLDER_RECORD_SIZE);
}

#[test]
fn read_folder_record_reads_the_offset_where_the_version_has_it() {
    let expected = FolderRecord {
        name_hash: 0x1122_3344_5566_7788,
        file_count: 3,
        file_records_offset: 0x0A0B_0C0D,
    };
    let old = folder_record_v103(0x1122_3344_5566_7788, 3, 0x0A0B_0C0D);
    let new = folder_record_v105(0x1122_3344_5566_7788, 3, 0x0A0B_0C0D);

    assert_eq!(expected, v103::read_folder_record(&old));
    assert_eq!(expected, v105::read_folder_record(&new));
    assert_eq!(expected, FolderRecordFormat::V103.read_folder_record(&old));
    assert_eq!(expected, FolderRecordFormat::V105.read_folder_record(&new));
    // The layouts differ in where the offset stands.
    assert_eq!(0xDEAD_BEEF, v103::read_folder_record(&new).file_records_offset);
}

#[test]
fn directory_size_counts_both_blocks() {
    let header = header(104, 1, 2, 3, 10, 99);
    assert_eq!(2 * 16 + 2 + 10 + 3 * 16, directory_size(&header, FolderRecordFormat::V103));
    assert_eq!(2 * 24 + 2 + 10 + 3 * 16, directory_size(&header, FolderRecordFormat::V105));

    let largest = header_fields(105, 36, 0, u32::MAX, u32::MAX, u32::MAX, u32::MAX);
    let largest = Header::try_from(largest).unwrap();
    assert_eq!(
        (24 + 1 + 1 + 16) * u64::from(u32::MAX),
        directory_size(&largest, FolderRecordFormat::V105)
    );
}

#[test]
fn read_assets_with_header_reads_folders_without_names() {
    for version in [103, 104, 105] {
        let (header, content) = two_folders(version);
        let format = FolderRecordFormat::for_version(version).unwrap();

        assert_eq!(
            Ok(assets(&[(7, &[1, 2]), (9, &[3])])),
            read_assets_with_header(&content, &header, format)
        );
    }
}

#[test]
fn read_assets_with_header_skips_the_folder_names() {
    // One folder named "ab" with one file.
    let header = header(104, 1, 1, 1, 3, 0);
    let mut content = folder_record_v103(5, 1, 36 + 16);
    content.extend([3, b'a', b'b', 0]);
    content.extend(file_record(0xFFFF_FFFF_FFFF_FFFF));

    assert_eq!(
        Ok(assets(&[(5, &[u64::MAX])])),
        read_assets_with_header(&content, &header, FolderRecordFormat::V103)
    );
}

#[test]
fn read_assets_with_header_reads_an_archive_without_folders() {
    let header = header(105, 1, 0, 0, 0, 0);
    assert_eq!(
        Ok(BTreeMap::new()),
        read_assets_with_header(&[], &header, FolderRecordFormat::V105)
    );
}

#[test]
fn read_assets_with_header_needs_the_whole_directory() {
    let (header, mut content) = two_folders(104);
    content.pop();
    assert_eq!(
        Err(ArchiveParsingError::IoError),
        read_assets_with_header(&content, &header, FolderRecordFormat::V103)
    );
    assert_eq!(
        Err(ArchiveParsingError::IoError),
        read_assets_with_header(&[], &header, FolderRecordFormat::V103)
    );
}

#[test]
fn read_assets_with_header_rejects_a_repeated_folder_hash() {
    let header = header(104, 0, 3, 0, 0, 0);
    let baseline = 36 + 3 * 16;
    let mut content = folder_record_v103(7, 0, baseline);
    content.extend(folder_record_v103(8, 0, baseline));
    content.extend(folder_record_v103(7, 0, baseline));
    content.extend([0u8; 3]);

    assert_eq!(
        Err(ArchiveParsingError::DuplicateFolderHash(7)),
        read_assets_with_header(&content, &header, FolderRecordFormat::V103)
    );
}

#[test]
fn read_assets_with_header_rejects_a_repeated_folder_hash_before_its_offset() {
    let header = header(104, 0, 2, 0, 0, 0);
    let baseline = 36 + 2 * 16;
    let mut content = folder_record_v103(7, 0, baseline);
    content.extend(folder_record_v103(7, 0, 0));
    content.extend([0u8; 2]);

    assert_eq!(
        Err(ArchiveParsingError::DuplicateFolderHash(7)),
        read_assets_with_header(&content, &header, FolderRecordFormat::V103)
    );
}

#[test]
fn read_assets_with_header_reports_the_first_error() {
    // The first folder has a bad offset, the next two have the same hash.
    let header = header(104, 0, 3, 0, 0, 0);
    let baseline = 36 + 3 * 16;
    let mut content = folder_record_v103(1, 0, baseline - 1);
    content.extend(folder_record_v103(7, 0, baseline));
    content.extend(folder_record_v103(7, 0, baseline));
    content.extend([0u8; 3]);

    assert_eq!(
        Err(ArchiveParsingError::InvalidOffset),
        read_assets_with_header(&content, &header, FolderRecordFormat::V103)
    );
}

#[test]
fn read_assets_with_header_rejects_a_repeated_file_hash_in_a_folder() {
    let header = header(104, 0, 1, 3, 0, 0);
    let mut content = folder_record_v103(7, 3, 36 + 16);
    content.extend(file_record(4));
    content.extend(file_record(5));
    content.extend(file_record(4));
    content.push(0);

    assert_eq!(
        Err(ArchiveParsingError::DuplicateFileHash {
            folder_hash: 7,
            file_hash: 4
        }),
        read_assets_with_header(&content, &header, FolderRecordFormat::V103)
    );
}

#[test]
fn read_assets_with_header_accepts_the_same_file_hash_in_two_folders() {
    let header = header(104, 0, 2, 2, 0, 0);
    let baseline = 36 + 2 * 16;
    let mut content = folder_record_v103(7, 1, baseline);
    content.extend(folder_record_v103(8, 1, baseline + 16));
    content.extend(file_record(4));
    content.extend(file_record(4));
    content.extend([0u8; 2]);

    assert_eq!(
        Ok(assets(&[(7, &[4]), (8, &[4])])),
        read_assets_with_header(&content, &header, FolderRecordFormat::V103)
    );
}

#[test]
fn read_assets_with_header_rejects_offsets_outside_the_block() {
    let header = header(104, 0, 1, 1, 0, 0);
    let baseline = 36 + 16;
    let block = |offset: u32, count: u32| {
        let mut content = folder_record_v103(7, count, offset);
        content.extend(file_record(4));
        content.push(0);
        read_assets_with_header(&content, &header, FolderRecordFormat::V103)
    };

    assert_eq!(Ok(assets(&[(7, &[4])])), block(baseline, 1));
    assert_eq!(Err(ArchiveParsingError::InvalidOffset), block(baseline - 1, 1));
    assert_eq!(Err(ArchiveParsingError::InvalidOffset), block(0, 1));
    assert_eq!(Err(ArchiveParsingError::InvalidOffset), block(baseline + 18, 0));
    assert_eq!(Err(ArchiveParsingError::InvalidOffset), block(u32::MAX, 0));
    // The end of the block is a place for no file records.
    assert_eq!(Ok(assets(&[(7, &[])])), block(baseline + 17, 0));
    // All the file records of a folder have to lie in the block.
    assert_eq!(Err(ArchiveParsingError::InvalidOffset), block(baseline + 2, 1));
    assert_eq!(Err(ArchiveParsingError::InvalidOffset), block(baseline, 2));
}

#[test]
fn read_assets_with_header_subtracts_the_file_names_length() {
    let header = header(104, 0, 1, 1, 0, 1000);
    let mut content = folder_record_v103(7, 1, 36 + 16 + 1000);
    content.extend(file_record(4));
    content.push(0);

    assert_eq!(
        Ok(assets(&[(7, &[4])])),
        read_assets_with_header(&content, &header, FolderRecordFormat::V103)
    );
}

#[test]
fn file_records_start_follows_the_name_length() {
    let with_names = header(104, 1, 1, 0, 0, 0);
    let without_names = header(104, 0, 1, 0, 0, 0);
    let record = |offset: u32| FolderRecord {
        name_hash: 0,
        file_count: 0,
        file_records_offset: offset,
    };
    let block = [9u8, 2, 0, 0];
    let format = FolderRecordFormat::V103;
    let baseline = 36 + 16;

    assert_eq!(Some(1), file_records_start(&without_names, format, &record(baseline + 1), &block));
    assert_eq!(Some(4), file_records_start(&without_names, format, &record(baseline + 4), &block));
    assert_eq!(None, file_records_start(&without_names, format, &record(baseline + 5), &block));
    assert_eq!(Some(4), file_records_start(&with_names, format, &record(baseline + 1), &block));
    assert_eq!(Some(3), file_records_start(&with_names, format, &record(baseline + 2), &block));
    assert_eq!(None, file_records_start(&with_names, format, &record(baseline), &block));
    assert_eq!(None, file_records_start(&with_names, format, &record(baseline + 4), &block));
    assert_eq!(None, file_records_start(&with_names, format, &record(baseline - 1), &block));
}

#[test]
fn read_file_hashes_reads_the_first_eight_bytes_of_each_record() {
    let record = FolderRecord {
        name_hash: 1,
        file_count: 2,
        file_records_offset: 0,
    };
    let mut block = vec![0u8; 3];
    block.extend(file_record(0x0102_0304_0506_0708));
    block.extend(file_record(0x0102_0304_0000_0000));

    assert_eq!(
        Ok(BTreeSet::from([0x0102_0304_0506_0708, 0x0102_0304_0000_0000])),
        read_file_hashes(&record, &block, 3)
    );
    assert_eq!(
        Err(ArchiveParsingError::InvalidOffset),
        read_file_hashes(&record, &block, 4)
    );
}

#[test]
fn read_assets_checks_the_header_before_the_version() {
    let mut content = header_fields(106, 35, 0x40, 0, 0, 0, 0).to_vec();
    assert_eq!(
        Err(ArchiveParsingError::MalformedHeader(
            HeaderDefect::RecordsOffset(35)
        )),
        read_assets(&content)
    );
    content[4] = 36;
    assert_eq!(
        Err(ArchiveParsingError::MalformedHeader(HeaderDefect::BigEndian)),
        read_assets(&content)
    );
    content[8] = 0;
    assert_eq!(
        Err(ArchiveParsingError::UnsupportedVersion(106)),
        read_assets(&content)
    );
    content[0] = 105;
    assert_eq!(Ok(BTreeMap::new()), read_assets(&content));
}

#[test]
fn read_assets_needs_the_whole_header() {
    let content = header_fields(104, 36, 0, 0, 0, 0, 0);
    assert_eq!(
        Err(ArchiveParsingError::IoError),
        read_assets(&content[..31])
    );
    assert_eq!(Err(ArchiveParsingError::IoError), read_assets(&[]));
}

#[test]
fn read_assets_picks_the_layout_by_the_version() {
    for version in [103, 104, 105] {
        let (_, directory) = two_folders(version);
        let mut content = header_fields(version, 36, 0, 2, 3, 8, 5).to_vec();
        content.extend(directory);

        assert_eq!(
            Ok(assets(&[(7, &[1, 2]), (9, &[3])])),
            read_assets(&content)
        );
    }
    // The directory of version 104 read as version 105 is too short.
    let (_, directory) = two_folders(104);
    let mut content = header_fields(105, 36, 0, 2, 3, 8, 5).to_vec();
    content.extend(directory);
    assert_eq!(Err(ArchiveParsingError::IoError), read_assets(&content));
}

#[test]
fn read_assets_with_header_rejects_a_repeated_folder_hash_wherever_it_stands() {
    let count: u32 = 5;
    for first in 0..count {
        for second in first + 1..count {
            for version in [103u32, 104, 105] {
                let format = FolderRecordFormat::for_version(version).unwrap();
                let header = header(version, 0, count, 0, 0, 0);
                let baseline = 36 + count * format.record_size() as u32;
                let mut content = Vec::new();
                for index in 0..count {
                    let hash = if index == second { 100 + first } else { 100 + index };
                    if version == 105 {
                        content.extend(folder_record_v105(u64::from(hash), 0, baseline));
                    } else {
                        content.extend(folder_record_v103(u64::from(hash), 0, baseline));
                    }
                }
                content.extend([0u8; 5]);

                assert_eq!(
                    Err(ArchiveParsingError::DuplicateFolderHash(u64::from(100 + first))),
                    read_assets_with_header(&content, &header, format)
                );
            }
        }
    }
}
