use std::collections::{BTreeMap, BTreeSet};

use libloot::archive::bsa;
use libloot::archive::error::{ArchiveParsingError, HeaderDefect};
use libloot::archive::parse::{
    archive_kind, assets_in_archives, get_assets_in_archive, index_archives, merge_assets,
    should_warn_on_hash_collisions, to_u32, to_u64, to_usize, ArchiveFile, ArchiveKind,
    HashCollision, SkippedArchive,
};
use libloot::path::FilePath;

const FOLDER_NAMES: u32 = 0x1;
const FILE_NAMES: u32 = 0x2;

struct Folder {
    hash: u64,
    name: &'static str,
    files: Vec<u64>,
}

fn folder(hash: u64, name: &'static str, files: &[u64]) -> Folder {
    Folder {
        hash,
        name,
        files: files.to_vec(),
    }
}

/// Builds the bytes of a BSA archive that holds the given folders, with one
/// made-up file name of eleven letters for each file.
fn build_bsa(version: u32, archive_flags: u32, folders: &[Folder]) -> Vec<u8> {
    let record_size: usize = if version == 105 { 24 } else { 16 };
    let with_names = archive_flags & FOLDER_NAMES != 0;
    let total_file_count: usize = folders.iter().map(|f| f.files.len()).sum();
    let total_folder_names_length: usize = folders.iter().map(|f| f.name.len() + 1).sum();
    let total_file_names_length: usize = total_file_count * 12;

    let mut bytes: Vec<u8> = Vec::new();
    bytes.extend_from_slice(b"BSA\0");
    bytes.extend_from_slice(&version.to_le_bytes());
    bytes.extend_from_slice(&36u32.to_le_bytes());
    bytes.extend_from_slice(&archive_flags.to_le_bytes());
    bytes.extend_from_slice(&(folders.len() as u32).to_le_bytes());
    bytes.extend_from_slice(&(total_file_count as u32).to_le_bytes());
    bytes.extend_from_slice(&(total_folder_names_length as u32).to_le_bytes());
    bytes.extend_from_slice(&(total_file_names_length as u32).to_le_bytes());
    bytes.extend_from_slice(&0u32.to_le_bytes());

    let mut position: usize = 36 + record_size * folders.len();
    for f in folders {
        let offset = (position + total_file_names_length) as u32;
        bytes.extend_from_slice(&f.hash.to_le_bytes());
        bytes.extend_from_slice(&(f.files.len() as u32).to_le_bytes());
        if version == 105 {
            bytes.extend_from_slice(&0xFFFF_FFFFu32.to_le_bytes());
            bytes.extend_from_slice(&offset.to_le_bytes());
            bytes.extend_from_slice(&0u32.to_le_bytes());
        } else {
            bytes.extend_from_slice(&offset.to_le_bytes());
        }
        if with_names {
            position += 1 + f.name.len() + 1;
        }
        position += 16 * f.files.len();
    }

    for f in folders {
        if with_names {
            bytes.push((f.name.len() + 1) as u8);
            bytes.extend_from_slice(f.name.as_bytes());
            bytes.push(0);
        }
        for file in &f.files {
            bytes.extend_from_slice(&file.to_le_bytes());
            bytes.extend_from_slice(&0x1234u32.to_le_bytes());
            bytes.extend_from_slice(&0xABCDu32.to_le_bytes());
        }
    }
    if !with_names {
        // The header counts the names and their length bytes in the size of
        // this block whether they are there or not.
        bytes.extend(std::iter::repeat(0xEE).take(folders.len() + total_folder_names_length));
    }
    for _ in 0..total_file_count {
        bytes.extend_from_slice(b"license.txt\0");
    }
    bytes
}

fn blank_bsa(version: u32, folder_hash: u64) -> Vec<u8> {
    build_bsa(
        version,
        FOLDER_NAMES | FILE_NAMES,
        &[folder(folder_hash, "", &[0x4670B6836C077365])],
    )
}

fn path(text: &str) -> FilePath {
    match text.rfind('/') {
        Some(at) => FilePath::new(text[..at].to_string(), text[at + 1..].to_string()),
        None => FilePath::new(String::new(), text.to_string()),
    }
}

fn readable(text: &str, content: Vec<u8>) -> ArchiveFile {
    ArchiveFile {
        path: path(text),
        content: Some(content),
        ba2_assets: None,
    }
}

fn unreadable(text: &str) -> ArchiveFile {
    ArchiveFile {
        path: path(text),
        content: None,
        ba2_assets: None,
    }
}

fn assets(entries: &[(u64, &[u64])]) -> BTreeMap<u64, BTreeSet<u64>> {
    entries
        .iter()
        .map(|(folder, files)| (*folder, files.iter().copied().collect()))
        .collect()
}

#[test]
fn should_error_if_file_cannot_be_opened() {
    let archive = unreadable("./invalid.bsa");
    assert!(get_assets_in_archive(&archive).is_err());
    assert_eq!(
        Err(ArchiveParsingError::IoError),
        get_assets_in_archive(&archive)
    );
}

#[test]
fn should_support_v103_bsas() {
    let archive = readable(
        "./testing-plugins/Oblivion/Data/Blank.bsa",
        blank_bsa(103, 0),
    );
    let assets = get_assets_in_archive(&archive).unwrap();

    let files_count: usize = assets.values().map(|v| v.len()).sum();

    let expected_key = 0;
    assert_eq!(1, assets.len());
    assert_eq!(1, files_count);
    assert_eq!(expected_key, *assets.first_key_value().unwrap().0);
    assert_eq!(1, assets.get(&expected_key).unwrap().len());
    assert_eq!(
        0x4670B6836C077365,
        *assets.get(&expected_key).unwrap().first().unwrap()
    );
}

#[test]
fn should_support_v104_bsas() {
    let archive = readable(
        "./testing-plugins/Skyrim/Data/Blank.bsa",
        blank_bsa(104, 0x2E01002E),
    );
    let assets = get_assets_in_archive(&archive).unwrap();

    let files_count: usize = assets.values().map(|v| v.len()).sum();

    let expected_key = 0x2E01002E;
    assert_eq!(1, assets.len());
    assert_eq!(1, files_count);
    assert_eq!(expected_key, *assets.first_key_value().unwrap().0);
    assert_eq!(1, assets.get(&expected_key).unwrap().len());
    assert_eq!(
        0x4670B6836C077365,
        *assets.get(&expected_key).unwrap().first().unwrap()
    );
}

#[test]
fn should_support_v105_bsas() {
    let archive = readable(
        "./testing-plugins/SkyrimSE/Data/Blank.bsa",
        blank_bsa(105, 0xB68102C964176E73),
    );
    let assets = get_assets_in_archive(&archive).unwrap();

    let files_count: usize = assets.values().map(|v| v.len()).sum();

    let expected_key = 0xB68102C964176E73;
    assert_eq!(1, assets.len());
    assert_eq!(1, files_count);
    assert_eq!(expected_key, *assets.first_key_value().unwrap().0);
    assert_eq!(1, assets.get(&expected_key).unwrap().len());
    assert_eq!(
        0x4670B6836C077365,
        *assets.get(&expected_key).unwrap().first().unwrap()
    );
}

#[test]
fn should_skip_files_that_cannot_be_read() {
    let paths = [
        unreadable("invalid.bsa"),
        readable(
            "./testing-plugins/Skyrim/Data/Blank.bsa",
            blank_bsa(104, 0x2E01002E),
        ),
    ];

    let assets = assets_in_archives(&paths);

    let files_count: usize = assets.values().map(|v| v.len()).sum();

    assert_eq!(1, assets.len());
    assert_eq!(1, files_count);

    let (key, value) = assets.first_key_value().unwrap();
    assert_eq!(0x2E01002E, *key);
    assert_eq!(1, value.len());
    assert_eq!(0x4670B6836C077365, *value.first().unwrap());
}

#[test]
fn should_combine_assets_from_each_loaded_archive() {
    let paths = [
        readable(
            "./testing-plugins/Oblivion/Data/Blank.bsa",
            blank_bsa(103, 0),
        ),
        readable(
            "./testing-plugins/Skyrim/Data/Blank.bsa",
            blank_bsa(104, 0x2E01002E),
        ),
        readable(
            "./testing-plugins/SkyrimSE/Data/Blank.bsa",
            blank_bsa(105, 0xB68102C964176E73),
        ),
    ];

    let assets = assets_in_archives(&paths);

    let files_count: usize = assets.values().map(|v| v.len()).sum();

    assert_eq!(3, assets.len());
    assert_eq!(3, files_count);

    let value = assets.get(&0).unwrap();
    assert_eq!(1, value.len());
    assert_eq!(0x4670B6836C077365, *value.first().unwrap());

    let value = assets.get(&0x2E01002E).unwrap();
    assert_eq!(1, value.len());
    assert_eq!(0x4670B6836C077365, *value.first().unwrap());

    let value = assets.get(&0xB68102C964176E73).unwrap();
    assert_eq!(1, value.len());
    assert_eq!(0x4670B6836C077365, *value.first().unwrap());
}

#[test]
fn to_u32_reads_four_bytes_least_significant_first() {
    assert_eq!(0x0403_0201, to_u32(&[1, 2, 3, 4]));
    assert_eq!(0x0403_0201, to_u32(&[1, 2, 3, 4, 0xFF, 0xFF]));
    assert_eq!(u32::MAX, to_u32(&[0xFF; 4]));
    assert_eq!(0, to_u32(&[0; 4]));
}

#[test]
fn to_u64_reads_all_eight_bytes() {
    assert_eq!(
        0x0807_0605_0403_0201,
        to_u64(&[1, 2, 3, 4, 5, 6, 7, 8])
    );
    assert_eq!(
        0x4670B6836C077365,
        to_u64(&0x4670B6836C077365u64.to_le_bytes())
    );
    // The upper four bytes count.
    assert_eq!(0xFFFF_FFFF_0000_0000, to_u64(&[0, 0, 0, 0, 0xFF, 0xFF, 0xFF, 0xFF]));
    assert_eq!(u64::MAX, to_u64(&[0xFF; 9]));
}

#[test]
fn to_usize_keeps_the_value() {
    assert_eq!(0usize, to_usize(0));
    assert_eq!(u32::MAX as usize, to_usize(u32::MAX));
}

#[test]
fn archive_kind_knows_the_two_tags_only() {
    assert_eq!(Some(ArchiveKind::Bsa), archive_kind(*b"BSA\0"));
    assert_eq!(Some(ArchiveKind::Ba2), archive_kind(*b"BTDX"));
    assert_eq!(None, archive_kind(*b"BSA "));
    assert_eq!(None, archive_kind(*b"TES4"));
    assert_eq!(*b"BSA\0", bsa::TYPE_ID);
}

#[test]
fn get_assets_in_archive_rejects_an_unknown_type_tag() {
    let mut content = blank_bsa(104, 1);
    content[0] = b'X';
    assert_eq!(
        Err(ArchiveParsingError::UnsupportedFormat(*b"XSA\0")),
        get_assets_in_archive(&readable("a.bsa", content))
    );
}

#[test]
fn get_assets_in_archive_needs_the_whole_type_tag() {
    assert_eq!(
        Err(ArchiveParsingError::IoError),
        get_assets_in_archive(&readable("a.bsa", b"BSA".to_vec()))
    );
    assert_eq!(
        Err(ArchiveParsingError::IoError),
        get_assets_in_archive(&readable("a.bsa", Vec::new()))
    );
}

#[test]
fn get_assets_in_archive_hands_on_what_the_ba2_decoder_returned() {
    let decoded = assets(&[(7, &[1, 2]), (9, &[])]);
    let archive = ArchiveFile {
        path: path("Data/Blank - Main.ba2"),
        content: Some(b"BTDX\x01\0\0\0GNRL".to_vec()),
        ba2_assets: Some(Ok(decoded.clone())),
    };
    assert_eq!(Ok(decoded), get_assets_in_archive(&archive));

    let failed = ArchiveFile {
        path: path("Data/Blank - Main.ba2"),
        content: Some(b"BTDX\x01\0\0\0GNRL".to_vec()),
        ba2_assets: Some(Err(ArchiveParsingError::UnsupportedVersion(9))),
    };
    assert_eq!(
        Err(ArchiveParsingError::UnsupportedVersion(9)),
        get_assets_in_archive(&failed)
    );

    let undecoded = ArchiveFile {
        path: path("Data/Blank - Main.ba2"),
        content: Some(b"BTDX\x01\0\0\0GNRL".to_vec()),
        ba2_assets: None,
    };
    assert_eq!(
        Err(ArchiveParsingError::UnsupportedFormat(*b"BTDX")),
        get_assets_in_archive(&undecoded)
    );
}

#[test]
fn get_assets_in_archive_ignores_ba2_assets_for_a_bsa() {
    let archive = ArchiveFile {
        path: path("Data/Blank.bsa"),
        content: Some(blank_bsa(103, 5)),
        ba2_assets: Some(Ok(assets(&[(7, &[1])]))),
    };
    assert_eq!(
        Ok(assets(&[(5, &[0x4670B6836C077365])])),
        get_assets_in_archive(&archive)
    );
}

#[test]
fn should_warn_on_hash_collisions_for_every_bsa() {
    assert!(should_warn_on_hash_collisions(&path("Data/Blank.bsa")));
    assert!(should_warn_on_hash_collisions(&path(
        "Data/Fallout4 - Textures1.bsa"
    )));
    assert!(should_warn_on_hash_collisions(&path("Data/fallout4 - ")));
}

#[test]
fn should_warn_on_hash_collisions_for_a_ba2_of_a_mod() {
    assert!(should_warn_on_hash_collisions(&path("Data/Blank - Main.ba2")));
    assert!(should_warn_on_hash_collisions(&path(
        "Data/Fallout4Mod - Main.ba2"
    )));
    assert!(should_warn_on_hash_collisions(&path("Data/Fallout4 -.ba2")));
}

#[test]
fn should_not_warn_on_hash_collisions_for_base_game_ba2s() {
    assert!(!should_warn_on_hash_collisions(&path(
        "Data/Fallout4 - Textures1.ba2"
    )));
    assert!(!should_warn_on_hash_collisions(&path(
        "Data/FALLOUT4 - Meshes.BA2"
    )));
    assert!(!should_warn_on_hash_collisions(&path(
        "Data/DLCUltraHighResolution - Textures01.ba2"
    )));
    assert!(!should_warn_on_hash_collisions(&path(
        "dlcultrahighresolution - x.Ba2"
    )));
}

#[test]
fn merge_assets_reports_the_pairs_that_were_there() {
    let mut combined = assets(&[(1, &[10, 11]), (2, &[20])]);
    let added = assets(&[(1, &[11, 12]), (3, &[10]), (2, &[20])]);

    let collisions = merge_assets(&mut combined, &added);

    assert_eq!(
        assets(&[(1, &[10, 11, 12]), (2, &[20]), (3, &[10])]),
        combined
    );
    let found: BTreeSet<(u64, u64)> = collisions.iter().copied().collect();
    assert_eq!(2, collisions.len());
    assert_eq!(BTreeSet::from([(1, 11), (2, 20)]), found);
}

#[test]
fn index_archives_is_the_same_in_any_order() {
    let first = || readable("a.bsa", build_bsa(104, FOLDER_NAMES, &[folder(1, "a", &[10, 11])]));
    let second = || {
        readable(
            "b.bsa",
            build_bsa(105, 0, &[folder(1, "a", &[11, 12]), folder(2, "b", &[])]),
        )
    };
    let third = || unreadable("c.bsa");

    let expected = assets(&[(1, &[10, 11, 12]), (2, &[])]);
    assert_eq!(expected, assets_in_archives(&[first(), second(), third()]));
    assert_eq!(expected, assets_in_archives(&[third(), second(), first()]));
    assert_eq!(expected, assets_in_archives(&[second(), first(), third()]));
    assert_eq!(BTreeMap::new(), assets_in_archives(&[]));
}

#[test]
fn index_archives_notes_failures_and_collisions() {
    let mut corrupt = blank_bsa(104, 3);
    corrupt[8] = 35;
    let archives = [
        readable("a.bsa", build_bsa(104, FOLDER_NAMES, &[folder(1, "a", &[10, 11])])),
        readable("corrupt.bsa", corrupt),
        unreadable("missing.bsa"),
        readable("b.bsa", build_bsa(103, FOLDER_NAMES, &[folder(1, "a", &[11, 12])])),
        ArchiveFile {
            path: path("Fallout4 - Main.ba2"),
            content: Some(b"BTDX".to_vec()),
            ba2_assets: Some(Ok(assets(&[(1, &[10, 13])]))),
        },
        ArchiveFile {
            path: path("Mod - Main.ba2"),
            content: Some(b"BTDX".to_vec()),
            ba2_assets: Some(Ok(assets(&[(1, &[13]), (4, &[1])]))),
        },
    ];

    let index = index_archives(&archives);

    assert_eq!(assets(&[(1, &[10, 11, 12, 13]), (4, &[1])]), index.assets);
    assert_eq!(
        vec![
            SkippedArchive {
                archive: 1,
                error: ArchiveParsingError::MalformedHeader(HeaderDefect::RecordsOffset(35)),
            },
            SkippedArchive {
                archive: 2,
                error: ArchiveParsingError::IoError,
            },
        ],
        index.skipped
    );
    assert_eq!(
        vec![
            HashCollision {
                archive: 3,
                folder_hash: 1,
                file_hash: 11,
            },
            HashCollision {
                archive: 5,
                folder_hash: 1,
                file_hash: 13,
            },
        ],
        index.collisions
    );
}
