//! Telling the archive formats apart, gathering the assets of many
//! archives into one index, and the field decoding that the decoders share.

use crate::archive::assets::{asset_pairs, assets_of, outcome_of, AssetMap};
use crate::archive::error::ArchiveParsingError;
use crate::archive::{ba2, bsa};
use crate::path::{has_ascii_extension, spec_has_ascii_extension, FilePath};
use crate::text::{chars_of, spec_starts_with_ignore_ascii_case, starts_with_ignore_ascii_case};
use std::collections::{BTreeMap, BTreeSet};
use vstd::prelude::*;
use vstd::std_specs::iter::IteratorSpec;

verus! {

/// The `u32` that the first four bytes of `bytes` encode, least significant
/// byte first.
pub open spec fn spec_to_u32(bytes: Seq<u8>) -> u32 {
    (bytes[0] as int + 0x100 * bytes[1] as int + 0x1_0000 * bytes[2] as int + 0x100_0000
        * bytes[3] as int) as u32
}

/// The `u64` that the first eight bytes of `bytes` encode, least significant
/// byte first.
pub open spec fn spec_to_u64(bytes: Seq<u8>) -> u64 {
    (spec_to_u32(bytes) as int + 0x1_0000_0000 * spec_to_u32(bytes.skip(4)) as int) as u64
}

/// Reads the first four bytes of `bytes` as a little-endian `u32`.
pub fn to_u32(bytes: &[u8]) -> (value: u32)
    requires
        bytes@.len() >= 4,
    ensures
        value == spec_to_u32(bytes@),
{
    let b0: u32 = bytes[0] as u32;
    let b1: u32 = bytes[1] as u32;
    let b2: u32 = bytes[2] as u32;
    let b3: u32 = bytes[3] as u32;
    b0 + b1 * 0x100 + b2 * 0x1_0000 + b3 * 0x100_0000
}

/// Reads the first eight bytes of `bytes` as a little-endian `u64`.
pub fn to_u64(bytes: &[u8]) -> (value: u64)
    requires
        bytes@.len() >= 8,
    ensures
        value == spec_to_u64(bytes@),
{
    let low: u64 = to_u32(bytes) as u64;
    let b4: u64 = bytes[4] as u64;
    let b5: u64 = bytes[5] as u64;
    let b6: u64 = bytes[6] as u64;
    let b7: u64 = bytes[7] as u64;
    let high: u64 = b4 + b5 * 0x100 + b6 * 0x1_0000 + b7 * 0x100_0000;
    assert(high == spec_to_u32(bytes@.skip(4)));
    low + high * 0x1_0000_0000
}

/// Widens a 32-bit size to `usize`.
pub fn to_usize(size: u32) -> (value: usize)
    ensures
        value == size,
{
    size as usize
}

/// The archive formats that are told apart by their type tag.
#[derive(Clone, Copy, Debug, PartialEq, Eq)]
pub enum ArchiveKind {
    Bsa,
    Ba2,
}

/// The format that a type tag stands for, if it is a known one.
pub open spec fn spec_archive_kind(type_id: [u8; 4]) -> Option<ArchiveKind> {
    if type_id@ == bsa::TYPE_ID@ {
        Some(ArchiveKind::Bsa)
    } else if type_id@ == ba2::TYPE_ID@ {
        Some(ArchiveKind::Ba2)
    } else {
        None
    }
}

/// Whether two type tags are the same.
fn same_type_id(left: &[u8; 4], right: &[u8; 4]) -> (same: bool)
    ensures
        same == (left@ == right@),
{
    let same = left[0] == right[0] && left[1] == right[1] && left[2] == right[2] && left[3]
        == right[3];
    proof {
        if same {
            assert(left@ =~= right@);
        }
    }
    same
}

/// Tells which format a type tag stands for.
pub fn archive_kind(type_id: [u8; 4]) -> (kind: Option<ArchiveKind>)
    ensures
        kind == spec_archive_kind(type_id),
{
    if same_type_id(&type_id, &bsa::TYPE_ID) {
        Some(ArchiveKind::Bsa)
    } else if same_type_id(&type_id, &ba2::TYPE_ID) {
        Some(ArchiveKind::Ba2)
    } else {
        None
    }
}

/// An archive file as it was found on disk.
pub struct ArchiveFile {
    /// Where the file is.
    pub path: FilePath,
    /// The bytes of the file from its start, as far as they were read, or
    /// `None` if the file could not be opened or read.
    pub content: Option<Vec<u8>>,
    /// What the decoder for BA2 archives made of the file, if it was run on
    /// it.
    pub ba2_assets: Option<Result<AssetMap, ArchiveParsingError>>,
}

/// The type tag at the start of `content`.
pub open spec fn type_id_of(content: Seq<u8>) -> [u8; 4] {
    [content[0], content[1], content[2], content[3]]
}

/// The asset map of an archive with the given bytes, where `ba2_assets` is
/// what the decoder for BA2 archives made of it, if it was run.
///
/// The first four bytes are the type tag. After the tag of a BSA archive
/// the rest is decoded as one. After the tag of a BA2 archive the result is
/// what the decoder for that format returned; with no such result, and
/// after any other tag, the format is not supported.
pub open spec fn decode_tagged(
    content: Seq<u8>,
    ba2_assets: Option<Result<Map<u64, Set<u64>>, ArchiveParsingError>>,
) -> Result<Map<u64, Set<u64>>, ArchiveParsingError> {
    if content.len() < 4 {
        Err(ArchiveParsingError::IoError)
    } else {
        match spec_archive_kind(type_id_of(content)) {
            Some(ArchiveKind::Bsa) => bsa::decode_archive(content.skip(4)),
            Some(ArchiveKind::Ba2) => match ba2_assets {
                Some(outcome) => outcome,
                None => Err(ArchiveParsingError::UnsupportedFormat(type_id_of(content))),
            },
            None => Err(ArchiveParsingError::UnsupportedFormat(type_id_of(content))),
        }
    }
}

/// The asset map that an archive file provides, or why it provides none.
pub open spec fn archive_outcome(archive: ArchiveFile) -> Result<
    Map<u64, Set<u64>>,
    ArchiveParsingError,
> {
    match archive.content {
        None => Err(ArchiveParsingError::IoError),
        Some(content) => decode_tagged(
            content@,
            match archive.ba2_assets {
                Some(outcome) => Some(outcome_of(outcome)),
                None => None,
            },
        ),
    }
}

/// Reads the type tag of an archive and decodes the archive's assets with
/// the decoder for its format.
pub fn get_assets_in_archive(archive: &ArchiveFile) -> (result: Result<AssetMap, ArchiveParsingError>)
    ensures
        outcome_of(result) == archive_outcome(*archive),
{
    let content = match &archive.content {
        Some(content) => content.as_slice(),
        None => {
            return Err(ArchiveParsingError::IoError);
        },
    };
    if content.len() < 4 {
        return Err(ArchiveParsingError::IoError);
    }
    let type_id: [u8; 4] = [content[0], content[1], content[2], content[3]];
    assert(type_id@ =~= type_id_of(content@)@);
    assert(type_id == type_id_of(content@));

    match archive_kind(type_id) {
        Some(ArchiveKind::Bsa) => {
            let rest = &content[4..content.len()];
            assert(rest@ =~= content@.skip(4));
            bsa::read_assets(rest)
        },
        Some(ArchiveKind::Ba2) => match &archive.ba2_assets {
            Some(Ok(assets)) => Ok(assets.clone()),
            Some(Err(error)) => Err(*error),
            None => Err(ArchiveParsingError::UnsupportedFormat(type_id)),
        },
        None => Err(ArchiveParsingError::UnsupportedFormat(type_id)),
    }
}

/// Whether a file hash that an archive with the given file name shares with
/// an earlier archive is worth a warning. It is not for the BA2 archives of
/// the base game and of its official high resolution texture pack, which are
/// known by the start of their names; it is for every other archive.
pub open spec fn spec_should_warn_on_hash_collisions(file_name: Seq<char>) -> bool {
    !(spec_has_ascii_extension(file_name, "ba2"@) && (spec_starts_with_ignore_ascii_case(
        file_name,
        "fallout4 - "@,
    ) || spec_starts_with_ignore_ascii_case(file_name, "dlcultrahighresolution - "@)))
}

/// Decides whether a hash collision in the given archive is worth a
/// warning.
pub fn should_warn_on_hash_collisions(archive_path: &FilePath) -> (warn: bool)
    ensures
        warn == spec_should_warn_on_hash_collisions(archive_path.file_name@),
{
    if !has_ascii_extension(archive_path.file_name.as_str(), "ba2") {
        return true;
    }
    let filename = chars_of(archive_path.file_name.as_str());
    let base_game = chars_of("fallout4 - ");
    let texture_pack = chars_of("dlcultrahighresolution - ");

    !(starts_with_ignore_ascii_case(filename.as_slice(), base_game.as_slice())
        || starts_with_ignore_ascii_case(filename.as_slice(), texture_pack.as_slice()))
}

/// The file hashes that a model asset map has for a folder: none for a
/// folder that it does not have.
pub open spec fn files_of(assets: Map<u64, Set<u64>>, folder: u64) -> Set<u64> {
    if assets.contains_key(folder) {
        assets[folder]
    } else {
        Set::empty()
    }
}

/// The union of two model asset maps: every folder of either, each with the
/// file hashes that either has for it.
pub open spec fn merged(left: Map<u64, Set<u64>>, right: Map<u64, Set<u64>>) -> Map<u64, Set<u64>> {
    Map::new(
        |folder: u64| left.contains_key(folder) || right.contains_key(folder),
        |folder: u64| files_of(left, folder).union(files_of(right, folder)),
    )
}

/// Adds the file hashes of `files` to `target` and returns those that
/// `target` held already.
fn merge_files(target: &mut BTreeSet<u64>, files: &BTreeSet<u64>) -> (collisions: Vec<u64>)
    ensures
        final(target)@ == old(target)@.union(files@),
        collisions@.no_duplicates(),
        forall|file: u64|
            collisions@.contains(file) <==> old(target)@.contains(file) && files@.contains(file),
{
    let mut collisions: Vec<u64> = Vec::new();
    let ghost before = target@;
    let ghost order = files.iter().remaining();
    let ghost mut seen: int = 0;
    for file_hash in it: files.iter()
        invariant
            it.seq() == order,
            seen == it.index(),
            order.no_duplicates(),
            order.unref().to_set() == files@,
            forall|file: u64|
                target@.contains(file) <==> before.contains(file) || exists|i: int|
                    0 <= i < seen && *#[trigger] order[i] == file,
            forall|file: u64|
                collisions@.contains(file) <==> before.contains(file) && exists|i: int|
                    0 <= i < seen && *#[trigger] order[i] == file,
            collisions@.no_duplicates(),
    {
        let ghost found = collisions@;
        let fresh = target.insert(*file_hash);
        if !fresh {
            collisions.push(*file_hash);
        }
        proof {
            let hash = *file_hash;
            assert(*order[seen] == hash);
            assert forall|i: int| 0 <= i < seen implies *#[trigger] order[i] != hash by {
                assert(order[i] != order[seen]);
            }
            assert(!found.contains(hash)) by {
                if found.contains(hash) {
                    assert(before.contains(hash) && exists|i: int|
                        0 <= i < seen && *#[trigger] order[i] == hash);
                    let at = choose|at: int| 0 <= at < seen && *#[trigger] order[at] == hash;
                    assert(*order[at] != hash);
                }
            }
            assert(fresh == !before.contains(hash));
            if !fresh {
                assert(collisions@ == found.push(hash));
                assert forall|file: u64| collisions@.contains(file) <==> (found.contains(file)
                    || file == hash) by {
                    if found.contains(file) {
                        let at = choose|at: int| 0 <= at < found.len() && found[at] == file;
                        assert(collisions@[at] == file);
                    }
                    if file == hash {
                        assert(collisions@[found.len() as int] == file);
                    }
                }
            }
            seen = seen + 1;
        }
    }
    proof {
        assert(seen == order.len());
        assert forall|file: u64| files@.contains(file) <==> exists|i: int|
            0 <= i < order.len() && *#[trigger] order[i] == file by {
            if files@.contains(file) {
                assert(order.unref().to_set().contains(file));
                let at = choose|at: int| 0 <= at < order.unref().len() && order.unref()[at] == file;
                assert(*order[at] == file);
            }
            if exists|i: int| 0 <= i < order.len() && *#[trigger] order[i] == file {
                let at = choose|at: int| 0 <= at < order.len() && *#[trigger] order[at] == file;
                assert(order.unref()[at] == file);
                assert(order.unref().to_set().contains(file));
            }
        }
        assert(target@ =~= before.union(files@));
    }
    collisions
}

/// Appends to `collisions` the given file hashes, each paired with
/// `folder`.
fn push_collisions(collisions: &mut Vec<(u64, u64)>, folder: u64, files: &Vec<u64>)
    ensures
        final(collisions)@ == old(collisions)@ + files@.map_values(|file: u64| (folder, file)),
{
    let ghost before = collisions@;
    let mut index: usize = 0;
    while index < files.len()
        invariant
            index <= files@.len(),
            collisions@ == before + files@.take(index as int).map_values(|file: u64| (folder, file)),
        decreases files@.len() - index,
    {
        collisions.push((folder, files[index]));
        proof {
            assert(files@.take(index + 1) =~= files@.take(index as int).push(files@[index as int]));
            assert(collisions@ =~= before + files@.take(index + 1).map_values(
                |file: u64| (folder, file),
            ));
        }
        index = index + 1;
    }
    proof {
        assert(files@.take(index as int) =~= files@);
    }
}

/// Adds every asset of `assets` to `combined` and returns the
/// `(folder hash, file hash)` pairs that `combined` held already.
pub fn merge_assets(combined: &mut AssetMap, assets: &AssetMap) -> (collisions: Vec<(u64, u64)>)
    ensures
        assets_of(*final(combined)) == merged(assets_of(*old(combined)), assets_of(*assets)),
        collisions@.no_duplicates(),
        forall|pair: (u64, u64)|
            collisions@.contains(pair) <==> asset_pairs(assets_of(*old(combined))).contains(pair)
                && asset_pairs(assets_of(*assets)).contains(pair),
{
    let mut collisions: Vec<(u64, u64)> = Vec::new();
    let ghost base = assets_of(*combined);
    let ghost source = assets_of(*assets);
    let ghost order = assets.iter().remaining();
    let ghost mut seen: int = 0;
    let ghost mut done: Set<u64> = Set::empty();
    proof {
        assert(assets_of(*combined) =~~= merged(base, source.restrict(done)));
    }
    for entry in it: assets.iter()
        invariant
            it.seq() == order,
            seen == it.index(),
            source == assets_of(*assets),
            order.no_duplicates(),
            forall|i: int|
                0 <= i < order.len() ==> assets@.contains_key(*(#[trigger] order[i]).0)
                    && assets@[*order[i].0] == *order[i].1,
            forall|folder: u64| assets@.contains_key(folder) ==> exists|i: int| 0 <= i < order.len() && *(#[trigger] order[i]).0 == folder,
            forall|folder: u64|
                done.contains(folder) <==> exists|i: int|
                    0 <= i < seen && *(#[trigger] order[i]).0 == folder,
            assets_of(*combined) == merged(base, source.restrict(done)),
            collisions@.no_duplicates(),
            forall|pair: (u64, u64)|
                collisions@.contains(pair) <==> done.contains(pair.0) && asset_pairs(base).contains(
                    pair,
                ) && asset_pairs(source).contains(pair),
    {
        let (folder_hash, file_hashes) = entry;
        let ghost folder = *folder_hash;
        let ghost found = collisions@;
        let ghost held = *combined;
        proof {
            assert(order[seen] == entry);
            assert forall|i: int| 0 <= i < seen implies *(#[trigger] order[i]).0 != folder by {
                if *order[i].0 == folder {
                    assert(*order[i].1 == assets@[folder]);
                    assert(*order[seen].1 == assets@[folder]);
                    assert(order[i] == order[seen]);
                }
            }
            assert(!done.contains(folder));
        }
        let mut entry_file_hashes = match combined.remove(folder_hash) {
            Some(files) => files,
            None => BTreeSet::new(),
        };
        assert(entry_file_hashes@ == files_of(base, folder)) by {
            assert(files_of(source.restrict(done), folder) == Set::<u64>::empty());
            if held@.contains_key(folder) {
                assert(assets_of(held)[folder] == held@[folder]@);
                assert(assets_of(held)[folder] =~= files_of(base, folder).union(Set::<u64>::empty()));
            } else {
                assert(!assets_of(held).contains_key(folder));
            }
        }
        let hits = merge_files(&mut entry_file_hashes, file_hashes);
        push_collisions(&mut collisions, *folder_hash, &hits);
        let ghost removed = *combined;
        combined.insert(*folder_hash, entry_file_hashes);
        proof {
            let added = hits@.map_values(|file: u64| (folder, file));
            let done_after = done.insert(folder);
            assert(source.contains_key(folder) && source[folder] == file_hashes@);
            assert(assets_of(*combined) =~= merged(base, source.restrict(done_after))) by {
                assert forall|other: u64| #[trigger] assets_of(*combined).contains_key(other)
                    <==> merged(base, source.restrict(done_after)).contains_key(other) by {
                    assert(assets_of(held).contains_key(other) <==> merged(base, source.restrict(done)).contains_key(other));
                }
                assert forall|other: u64| #[trigger] assets_of(*combined).contains_key(other) implies
                    assets_of(*combined)[other] == merged(base, source.restrict(done_after))[other] by {
                    if other == folder {
                        assert(assets_of(*combined)[other] == entry_file_hashes@);
                    } else {
                        assert(assets_of(*combined)[other] == assets_of(held)[other]);
                        assert(assets_of(held).contains_key(other));
                        assert(files_of(source.restrict(done_after), other) == files_of(source.restrict(done), other));
                    }
                }
            }
            assert forall|pair: (u64, u64)| collisions@.contains(pair) <==> (found.contains(pair)
                || added.contains(pair)) by {
                if found.contains(pair) {
                    let at = choose|at: int| 0 <= at < found.len() && found[at] == pair;
                    assert(collisions@[at] == pair);
                }
                if added.contains(pair) {
                    let at = choose|at: int| 0 <= at < added.len() && added[at] == pair;
                    assert(collisions@[found.len() + at] == pair);
                }
                if collisions@.contains(pair) {
                    let at = choose|at: int| 0 <= at < collisions@.len() && collisions@[at] == pair;
                    if at < found.len() {
                        assert(found[at] == pair);
                    } else {
                        assert(added[at - found.len()] == pair);
                    }
                }
            }
            assert forall|pair: (u64, u64)| added.contains(pair) <==> (pair.0 == folder
                && hits@.contains(pair.1)) by {
                if added.contains(pair) {
                    let at = choose|at: int| 0 <= at < added.len() && added[at] == pair;
                    assert(hits@[at] == pair.1);
                }
                if pair.0 == folder && hits@.contains(pair.1) {
                    let at = choose|at: int| 0 <= at < hits@.len() && hits@[at] == pair.1;
                    assert(added[at] == pair);
                }
            }
            assert(collisions@.no_duplicates()) by {
                assert forall|i: int, j: int|
                    0 <= i < collisions@.len() && 0 <= j < collisions@.len() && i != j implies collisions@[i]
                    != collisions@[j] by {
                    if i < found.len() && j < found.len() {
                        assert(found[i] != found[j]);
                    } else if i >= found.len() && j >= found.len() {
                        assert(hits@[i - found.len()] != hits@[j - found.len()]);
                    } else if i < found.len() {
                        assert(found.contains(found[i]));
                        assert(collisions@[j] == added[j - found.len()]);
                    } else {
                        assert(found.contains(found[j]));
                        assert(collisions@[i] == added[i - found.len()]);
                    }
                }
            }
            assert forall|pair: (u64, u64)|
                collisions@.contains(pair) <==> done_after.contains(pair.0) && asset_pairs(
                    base,
                ).contains(pair) && asset_pairs(source).contains(pair) by {
                if pair.0 == folder {
                    assert(!found.contains(pair));
                    assert(asset_pairs(base).contains(pair) <==> files_of(base, folder).contains(
                        pair.1,
                    ));
                } else {
                    assert(!added.contains(pair));
                }
            }
            seen = seen + 1;
            done = done_after;
        }
    }
    proof {
        assert(seen == order.len());
        assert(source.restrict(done) =~= source);
        assert(merged(base, source.restrict(done)) == merged(base, source));
    }
    collisions
}

/// A file hash that an archive shares with an archive before it in the
/// list, where the collision is worth a warning.
#[derive(Clone, Copy, Debug, PartialEq, Eq)]
pub struct HashCollision {
    /// The index in the list of the later archive.
    pub archive: usize,
    pub folder_hash: u64,
    pub file_hash: u64,
}

/// An archive that added nothing to the index, and why.
#[derive(Clone, Copy, Debug, PartialEq, Eq)]
pub struct SkippedArchive {
    /// The index of the archive in the list.
    pub archive: usize,
    pub error: ArchiveParsingError,
}

/// The assets of a list of archives, and what was noted while they were
/// gathered.
pub struct AssetIndex {
    /// Every asset of every archive that could be decoded.
    pub assets: AssetMap,
    /// The archives that could not be decoded, in the order of the list.
    pub skipped: Vec<SkippedArchive>,
    /// The collisions that are worth a warning.
    pub collisions: Vec<HashCollision>,
}

/// What reading one archive came to: its model asset map, or an error.
pub type Outcome = Result<Map<u64, Set<u64>>, ArchiveParsingError>;

/// Whether an archive was decoded and has the given folder.
pub open spec fn provides_folder(outcome: Outcome, folder: u64) -> bool {
    outcome matches Ok(assets) && assets.contains_key(folder)
}

/// Whether an archive was decoded and has the given file in the given
/// folder.
pub open spec fn provides_asset(outcome: Outcome, folder: u64, file: u64) -> bool {
    outcome matches Ok(assets) && assets.contains_key(folder) && assets[folder].contains(file)
}

/// The union of the asset maps among the given outcomes: the folders that
/// some decoded archive has, each with the files that some decoded archive
/// has in it. An error adds nothing.
pub open spec fn combined_outcomes(outcomes: Seq<Outcome>) -> Map<u64, Set<u64>> {
    Map::new(
        |folder: u64|
            exists|i: int| 0 <= i < outcomes.len() && provides_folder(#[trigger] outcomes[i], folder),
        |folder: u64|
            Set::new(
                |file: u64|
                    exists|i: int|
                        0 <= i < outcomes.len() && provides_asset(
                            #[trigger] outcomes[i],
                            folder,
                            file,
                        ),
            ),
    )
}

/// What reading each archive of a list comes to.
pub open spec fn outcomes_of(archives: Seq<ArchiveFile>) -> Seq<Outcome> {
    archives.map_values(|archive: ArchiveFile| archive_outcome(archive))
}

/// The assets of a list of archives: every asset of every archive of the
/// list that can be decoded.
pub open spec fn combined_assets(archives: Seq<ArchiveFile>) -> Map<u64, Set<u64>> {
    combined_outcomes(outcomes_of(archives))
}

/// Whether a list of archives with the given outcomes and file names has
/// the given collision, and it is worth a warning: an earlier archive
/// provides the same file in the same folder, and the later archive is not
/// one whose collisions are passed over.
pub open spec fn warned_collision(archives: Seq<ArchiveFile>, collision: HashCollision) -> bool {
    let outcomes = outcomes_of(archives);
    &&& collision.archive < archives.len()
    &&& provides_asset(
        outcomes[collision.archive as int],
        collision.folder_hash,
        collision.file_hash,
    )
    &&& exists|earlier: int|
        0 <= earlier < collision.archive && provides_asset(
            #[trigger] outcomes[earlier],
            collision.folder_hash,
            collision.file_hash,
        )
    &&& spec_should_warn_on_hash_collisions(archives[collision.archive as int].path.file_name@)
}

/// What one more outcome adds to the union of those before it.
pub proof fn lemma_combined_outcomes_step(outcomes: Seq<Outcome>, count: int)
    requires
        0 <= count < outcomes.len(),
    ensures
        combined_outcomes(outcomes.take(count + 1)) == match outcomes[count] {
            Ok(assets) => merged(combined_outcomes(outcomes.take(count)), assets),
            Err(_) => combined_outcomes(outcomes.take(count)),
        },
{
    let shorter = outcomes.take(count);
    let longer = outcomes.take(count + 1);
    let expected = match outcomes[count] {
        Ok(assets) => merged(combined_outcomes(shorter), assets),
        Err(_) => combined_outcomes(shorter),
    };
    assert forall|folder: u64| #[trigger]
        combined_outcomes(longer).contains_key(folder) <==> expected.contains_key(folder) by {
        if combined_outcomes(longer).contains_key(folder) {
            let i = choose|i: int| 0 <= i < longer.len() && provides_folder(#[trigger] longer[i], folder);
            if i < count {
                assert(provides_folder(shorter[i], folder));
            }
        }
        if combined_outcomes(shorter).contains_key(folder) {
            let i = choose|i: int|
                0 <= i < shorter.len() && provides_folder(#[trigger] shorter[i], folder);
            assert(provides_folder(longer[i], folder));
        }
        if provides_folder(outcomes[count], folder) {
            assert(provides_folder(longer[count], folder));
        }
    }
    assert forall|folder: u64| #[trigger]
        combined_outcomes(longer).contains_key(folder) implies combined_outcomes(longer)[folder]
        =~= expected[folder] by {
        assert forall|file: u64|
            combined_outcomes(longer)[folder].contains(file) <==> expected[folder].contains(file) by {
            if combined_outcomes(longer)[folder].contains(file) {
                let i = choose|i: int|
                    0 <= i < longer.len() && provides_asset(#[trigger] longer[i], folder, file);
                if i < count {
                    assert(provides_asset(shorter[i], folder, file));
                    assert(provides_folder(shorter[i], folder));
                }
            }
            if combined_outcomes(shorter).contains_key(folder) && combined_outcomes(
                shorter,
            )[folder].contains(file) {
                let i = choose|i: int|
                    0 <= i < shorter.len() && provides_asset(#[trigger] shorter[i], folder, file);
                assert(provides_asset(longer[i], folder, file));
            }
            if provides_asset(outcomes[count], folder, file) {
                assert(provides_asset(longer[count], folder, file));
            }
        }
    }
    assert(combined_outcomes(longer) =~= expected);
}

/// The collision of the archive with the given index in the given pair of
/// folder hash and file hash.
pub open spec fn collision_of(archive: usize, pair: (u64, u64)) -> HashCollision {
    HashCollision { archive, folder_hash: pair.0, file_hash: pair.1 }
}

/// Appends to `collisions` the given pairs as collisions of the archive
/// with the given index.
fn push_hash_collisions(collisions: &mut Vec<HashCollision>, archive: usize, pairs: &Vec<(u64, u64)>)
    ensures
        final(collisions)@ == old(collisions)@ + pairs@.map_values(
            |pair: (u64, u64)| collision_of(archive, pair),
        ),
{
    let ghost before = collisions@;
    let mut index: usize = 0;
    while index < pairs.len()
        invariant
            index <= pairs@.len(),
            collisions@ == before + pairs@.take(index as int).map_values(
                |pair: (u64, u64)| collision_of(archive, pair),
            ),
        decreases pairs@.len() - index,
    {
        let pair = pairs[index];
        collisions.push(HashCollision { archive, folder_hash: pair.0, file_hash: pair.1 });
        proof {
            assert(pairs@.take(index + 1) =~= pairs@.take(index as int).push(pairs@[index as int]));
            assert(collisions@ =~= before + pairs@.take(index + 1).map_values(
                |pair: (u64, u64)| collision_of(archive, pair),
            ));
        }
        index = index + 1;
    }
    proof {
        assert(pairs@.take(index as int) =~= pairs@);
    }
}

/// Whether the given collision is one of the archive at its index with an
/// archive before it.
pub open spec fn is_collision(outcomes: Seq<Outcome>, collision: HashCollision) -> bool {
    &&& collision.archive < outcomes.len()
    &&& provides_asset(
        outcomes[collision.archive as int],
        collision.folder_hash,
        collision.file_hash,
    )
    &&& exists|earlier: int|
        0 <= earlier < collision.archive && provides_asset(
            #[trigger] outcomes[earlier],
            collision.folder_hash,
            collision.file_hash,
        )
}

/// Whether `skipped` lists the archives among the first `count` that came
/// to an error, each with its error, in the order of the list.
#[verifier::opaque]
pub open spec fn skipped_are_noted(outcomes: Seq<Outcome>, skipped: Seq<SkippedArchive>, count: int) -> bool {
    &&& forall|k: int|
        0 <= k < skipped.len() ==> (#[trigger] skipped[k]).archive < count && outcomes[skipped[k].archive as int]
            == Err::<Map<u64, Set<u64>>, ArchiveParsingError>(skipped[k].error)
    &&& forall|i: int|
        0 <= i < count && (#[trigger] outcomes[i]) is Err ==> exists|k: int|
            0 <= k < skipped.len() && (#[trigger] skipped[k]).archive == i
    &&& forall|k: int, l: int|
        0 <= k < l < skipped.len() ==> (#[trigger] skipped[k]).archive < (#[trigger] skipped[l]).archive
}

/// Whether `collisions` lists, each once, the collisions of the first
/// `count` archives that are worth a warning.
#[verifier::opaque]
pub open spec fn collisions_are_noted(
    archives: Seq<ArchiveFile>,
    collisions: Seq<HashCollision>,
    count: int,
) -> bool {
    &&& collisions.no_duplicates()
    &&& forall|collision: HashCollision|
        collisions.contains(collision) <==> collision.archive < count && warned_collision(
            archives,
            collision,
        )
}

/// Noting one more archive keeps the list of skipped archives exact.
proof fn lemma_skipped_step(
    outcomes: Seq<Outcome>,
    passed: Seq<SkippedArchive>,
    skipped: Seq<SkippedArchive>,
    position: usize,
)
    requires
        0 <= position < outcomes.len(),
        skipped_are_noted(outcomes, passed, position as int),
        match outcomes[position as int] {
            Ok(_) => skipped == passed,
            Err(error) => skipped == passed.push(SkippedArchive { archive: position, error }),
        },
    ensures
        skipped_are_noted(outcomes, skipped, position + 1),
{
    reveal(skipped_are_noted);
    if outcomes[position as int] is Err {
        assert forall|i: int| 0 <= i < position + 1 && (#[trigger] outcomes[i]) is Err implies exists|
            k: int,
        |
            0 <= k < skipped.len() && (#[trigger] skipped[k]).archive == i by {
            if i < position {
                let k = choose|k: int| 0 <= k < passed.len() && (#[trigger] passed[k]).archive == i;
                assert(skipped[k].archive == i);
            } else {
                assert(skipped[passed.len() as int].archive == i);
            }
        }
        assert forall|k: int, l: int| 0 <= k < l < skipped.len() implies (#[trigger] skipped[k]).archive
            < (#[trigger] skipped[l]).archive by {
            if l < passed.len() {
                assert(passed[k].archive < passed[l].archive);
            } else {
                assert(passed[k].archive < position);
            }
        }
    }
}

/// Noting the collisions of one more archive keeps the list of collisions
/// exact.
proof fn lemma_collisions_step(
    outcomes: Seq<Outcome>,
    provided: Map<u64, Set<u64>>,
    hits: Seq<(u64, u64)>,
    noted: Seq<HashCollision>,
    collisions: Seq<HashCollision>,
    position: usize,
    warn: bool,
)
    requires
        0 <= position < outcomes.len(),
        outcomes[position as int] == Ok::<Map<u64, Set<u64>>, ArchiveParsingError>(provided),
        hits.no_duplicates(),
        forall|pair: (u64, u64)|
            hits.contains(pair) <==> asset_pairs(
                combined_outcomes(outcomes.take(position as int)),
            ).contains(pair) && asset_pairs(provided).contains(pair),
        noted.no_duplicates(),
        forall|collision: HashCollision| #[trigger]
            noted.contains(collision) ==> collision.archive < position,
        collisions == if warn {
            noted + hits.map_values(|pair: (u64, u64)| collision_of(position, pair))
        } else {
            noted
        },
    ensures
        collisions.no_duplicates(),
        forall|collision: HashCollision|
            collisions.contains(collision) <==> noted.contains(collision) || (warn
                && collision.archive == position && is_collision(outcomes, collision)),
{
    let earlier = outcomes.take(position as int);
    let added = hits.map_values(|pair: (u64, u64)| collision_of(position, pair));
    assert forall|collision: HashCollision| collision.archive == position implies (hits.contains(
        (collision.folder_hash, collision.file_hash),
    ) <==> is_collision(outcomes, collision)) by {
        let pair = (collision.folder_hash, collision.file_hash);
        if asset_pairs(combined_outcomes(earlier)).contains(pair) {
            let before = choose|before: int|
                0 <= before < earlier.len() && provides_asset(
                    #[trigger] earlier[before],
                    pair.0,
                    pair.1,
                );
            assert(provides_asset(outcomes[before], pair.0, pair.1));
        }
        if is_collision(outcomes, collision) {
            let before = choose|before: int|
                0 <= before < position && provides_asset(#[trigger] outcomes[before], pair.0, pair.1);
            assert(provides_asset(earlier[before], pair.0, pair.1));
            assert(provides_folder(earlier[before], pair.0));
        }
    }
    assert forall|collision: HashCollision|
        added.contains(collision) <==> (collision.archive == position && hits.contains(
            (collision.folder_hash, collision.file_hash),
        )) by {
        if added.contains(collision) {
            let at = choose|at: int| 0 <= at < added.len() && added[at] == collision;
            assert(hits[at] == (collision.folder_hash, collision.file_hash));
        }
        if collision.archive == position && hits.contains(
            (collision.folder_hash, collision.file_hash),
        ) {
            let at = choose|at: int|
                0 <= at < hits.len() && hits[at] == (collision.folder_hash, collision.file_hash);
            assert(added[at] == collision);
        }
    }
    if warn {
        assert forall|collision: HashCollision|
            collisions.contains(collision) <==> (noted.contains(collision) || added.contains(
                collision,
            )) by {
            if noted.contains(collision) {
                let at = choose|at: int| 0 <= at < noted.len() && noted[at] == collision;
                assert(collisions[at] == collision);
            }
            if added.contains(collision) {
                let at = choose|at: int| 0 <= at < added.len() && added[at] == collision;
                assert(collisions[noted.len() + at] == collision);
            }
            if collisions.contains(collision) {
                let at = choose|at: int| 0 <= at < collisions.len() && collisions[at] == collision;
                if at < noted.len() {
                    assert(noted[at] == collision);
                } else {
                    assert(added[at - noted.len()] == collision);
                }
            }
        }
        assert forall|i: int, j: int|
            0 <= i < collisions.len() && 0 <= j < collisions.len() && i != j implies collisions[i]
            != collisions[j] by {
            if i < noted.len() && j < noted.len() {
                assert(noted[i] != noted[j]);
            } else if i >= noted.len() && j >= noted.len() {
                assert(hits[i - noted.len()] != hits[j - noted.len()]);
            } else if i < noted.len() {
                assert(noted.contains(noted[i]));
                assert(collisions[j] == added[j - noted.len()]);
            } else {
                assert(noted.contains(noted[j]));
                assert(collisions[i] == added[i - noted.len()]);
            }
        }
    }
}

/// Noting the collisions of one more archive, or passing over an archive
/// that came to an error, keeps the list of collisions exact.
proof fn lemma_collisions_noted(
    archives: Seq<ArchiveFile>,
    hits: Seq<(u64, u64)>,
    noted: Seq<HashCollision>,
    collisions: Seq<HashCollision>,
    position: usize,
    warn: bool,
)
    requires
        0 <= position < archives.len(),
        collisions_are_noted(archives, noted, position as int),
        match outcomes_of(archives)[position as int] {
            Ok(provided) => {
                &&& warn == spec_should_warn_on_hash_collisions(
                    archives[position as int].path.file_name@,
                )
                &&& hits.no_duplicates()
                &&& forall|pair: (u64, u64)|
                    hits.contains(pair) <==> asset_pairs(
                        combined_outcomes(outcomes_of(archives).take(position as int)),
                    ).contains(pair) && asset_pairs(provided).contains(pair)
                &&& collisions == if warn {
                    noted + hits.map_values(|pair: (u64, u64)| collision_of(position, pair))
                } else {
                    noted
                }
            },
            Err(_) => collisions == noted,
        },
    ensures
        collisions_are_noted(archives, collisions, position + 1),
{
    reveal(collisions_are_noted);
    let outcomes = outcomes_of(archives);
    match outcomes[position as int] {
        Ok(provided) => {
            lemma_collisions_step(outcomes, provided, hits, noted, collisions, position, warn);
        },
        Err(_) => {},
    }
}

/// Gathers the assets of the given archives, taken in the order of the
/// list.
///
/// An archive that cannot be read or decoded is skipped and adds nothing;
/// the others add all of their assets. A file that an earlier archive of
/// the list provides already is kept once, and noted as a collision if the
/// later archive is one for which collisions are worth a warning.
pub fn index_archives(archives: &[ArchiveFile]) -> (index: AssetIndex)
    ensures
        assets_of(index.assets) == combined_assets(archives@),
        forall|k: int|
            0 <= k < index.skipped@.len() ==> (#[trigger] index.skipped@[k]).archive < archives@.len()
                && outcomes_of(archives@)[index.skipped@[k].archive as int] == Err::<
                Map<u64, Set<u64>>,
                ArchiveParsingError,
            >(index.skipped@[k].error),
        forall|i: int|
            0 <= i < archives@.len() && (#[trigger] outcomes_of(archives@)[i]) is Err ==> exists|
                k: int,
            |
                0 <= k < index.skipped@.len() && (#[trigger] index.skipped@[k]).archive == i,
        forall|k: int, l: int|
            0 <= k < l < index.skipped@.len() ==> (#[trigger] index.skipped@[k]).archive < (
            #[trigger] index.skipped@[l]).archive,
        index.collisions@.no_duplicates(),
        forall|collision: HashCollision|
            index.collisions@.contains(collision) <==> warned_collision(archives@, collision),
{
    let mut assets: AssetMap = BTreeMap::new();
    let mut skipped: Vec<SkippedArchive> = Vec::new();
    let mut collisions: Vec<HashCollision> = Vec::new();
    let mut position: usize = 0;
    let ghost outcomes = outcomes_of(archives@);
    proof {
        assert(assets_of(assets) =~= combined_outcomes(outcomes.take(0)));
        assert(skipped_are_noted(outcomes, skipped@, 0)) by {
            reveal(skipped_are_noted);
        }
        assert(collisions_are_noted(archives@, collisions@, 0)) by {
            reveal(collisions_are_noted);
        }
    }
    while position < archives.len()
        invariant
            position <= archives@.len(),
            outcomes == outcomes_of(archives@),
            assets_of(assets) == combined_outcomes(outcomes.take(position as int)),
            skipped_are_noted(outcomes, skipped@, position as int),
            collisions_are_noted(archives@, collisions@, position as int),
        decreases archives@.len() - position,
    {
        let archive = &archives[position];
        let ghost noted = collisions@;
        let ghost passed = skipped@;
        proof {
            lemma_combined_outcomes_step(outcomes, position as int);
        }
        let result = get_assets_in_archive(archive);
        assert(outcome_of(result) == outcomes[position as int]);
        match result {
            Err(error) => {
                skipped.push(SkippedArchive { archive: position, error });
                proof {
                    lemma_skipped_step(outcomes, passed, skipped@, position);
                    lemma_collisions_noted(
                        archives@,
                        Seq::empty(),
                        noted,
                        collisions@,
                        position,
                        false,
                    );
                }
            },
            Ok(found) => {
                let warn = should_warn_on_hash_collisions(&archive.path);
                let hits = merge_assets(&mut assets, &found);
                if warn {
                    push_hash_collisions(&mut collisions, position, &hits);
                }
                proof {
                    lemma_skipped_step(outcomes, passed, skipped@, position);
                    lemma_collisions_noted(archives@, hits@, noted, collisions@, position, warn);
                }
            },
        }
        position = position + 1;
    }
    proof {
        assert(outcomes.take(position as int) =~= outcomes);
        reveal(skipped_are_noted);
        reveal(collisions_are_noted);
    }
    AssetIndex { assets, skipped, collisions }
}

/// Gathers the assets of the given archives: see [`index_archives`].
pub fn assets_in_archives(archives: &[ArchiveFile]) -> (assets: AssetMap)
    ensures
        assets_of(assets) == combined_assets(archives@),
{
    index_archives(archives).assets
}

/// The assets of a list of archives do not depend on the order of the
/// list: two lists that hold the same archives, each as often as the other,
/// have the same assets.
pub proof fn law_combined_assets_ignore_order(left: Seq<ArchiveFile>, right: Seq<ArchiveFile>)
    requires
        left.to_multiset() == right.to_multiset(),
    ensures
        combined_assets(left) == combined_assets(right),
{
    lemma_combined_assets_of_subset(left, right);
    lemma_combined_assets_of_subset(right, left);
    assert(combined_assets(left) =~~= combined_assets(right));
}

/// Every asset of a list of archives is an asset of a list that holds each
/// of its archives.
proof fn lemma_combined_assets_of_subset(left: Seq<ArchiveFile>, right: Seq<ArchiveFile>)
    requires
        left.to_multiset() == right.to_multiset(),
    ensures
        forall|folder: u64| #[trigger]
            combined_assets(left).contains_key(folder) ==> combined_assets(right).contains_key(
                folder,
            ),
        forall|folder: u64, file: u64|
            combined_assets(left).contains_key(folder) && #[trigger] combined_assets(
                left,
            )[folder].contains(file) ==> combined_assets(right)[folder].contains(file),
{
    broadcast use vstd::seq_lib::to_multiset_contains;

    let from = outcomes_of(left);
    let to = outcomes_of(right);
    assert forall|i: int| 0 <= i < left.len() implies exists|j: int|
        0 <= j < right.len() && right[j] == #[trigger] left[i] by {
        assert(left.contains(left[i]));
        assert(left.to_multiset().count(left[i]) > 0);
        assert(right.contains(left[i]));
    }
    assert forall|folder: u64| #[trigger]
        combined_assets(left).contains_key(folder) implies combined_assets(right).contains_key(
        folder,
    ) by {
        let i = choose|i: int| 0 <= i < from.len() && provides_folder(#[trigger] from[i], folder);
        let j = choose|j: int| 0 <= j < right.len() && right[j] == left[i];
        assert(provides_folder(to[j], folder));
    }
    assert forall|folder: u64, file: u64|
        combined_assets(left).contains_key(folder) && #[trigger] combined_assets(
            left,
        )[folder].contains(file) implies combined_assets(right)[folder].contains(file) by {
        let i = choose|i: int|
            0 <= i < from.len() && provides_asset(#[trigger] from[i], folder, file);
        let j = choose|j: int| 0 <= j < right.len() && right[j] == left[i];
        assert(provides_asset(to[j], folder, file));
    }
}

/// An archive that is decoded adds all of its assets to the assets of the
/// list, wherever it stands in the list and whatever becomes of the other
/// archives.
pub proof fn law_decoded_archive_contributes(archives: Seq<ArchiveFile>, index: int)
    requires
        0 <= index < archives.len(),
        archive_outcome(archives[index]) is Ok,
    ensures
        forall|folder: u64| #[trigger]
            archive_outcome(archives[index])->Ok_0.contains_key(folder) ==> combined_assets(
                archives,
            ).contains_key(folder) && archive_outcome(archives[index])->Ok_0[folder].subset_of(
                combined_assets(archives)[folder],
            ),
{
    let outcomes = outcomes_of(archives);
    let assets = archive_outcome(archives[index])->Ok_0;
    assert(outcomes[index] == archive_outcome(archives[index]));
    assert forall|folder: u64| #[trigger] assets.contains_key(folder) implies combined_assets(
        archives,
    ).contains_key(folder) && assets[folder].subset_of(combined_assets(archives)[folder]) by {
        assert(provides_folder(outcomes[index], folder));
        assert forall|file: u64| assets[folder].contains(file) implies combined_assets(
            archives,
        )[folder].contains(file) by {
            assert(provides_asset(outcomes[index], folder, file));
        }
    }
}

/// An outcome that is an error adds nothing to the union.
proof fn lemma_error_adds_nothing(outcomes: Seq<Outcome>, index: int)
    requires
        0 <= index < outcomes.len(),
        outcomes[index] is Err,
    ensures
        combined_outcomes(outcomes) == combined_outcomes(outcomes.remove(index)),
{
    let rest = outcomes.remove(index);
    assert forall|folder: u64| #[trigger]
        combined_outcomes(outcomes).contains_key(folder) <==> combined_outcomes(rest).contains_key(
            folder,
        ) by {
        if combined_outcomes(outcomes).contains_key(folder) {
            let i = choose|i: int|
                0 <= i < outcomes.len() && provides_folder(#[trigger] outcomes[i], folder);
            let j = if i < index {
                i
            } else {
                i - 1
            };
            assert(rest[j] == outcomes[i]);
            assert(provides_folder(rest[j], folder));
        }
        if combined_outcomes(rest).contains_key(folder) {
            let j = choose|j: int| 0 <= j < rest.len() && provides_folder(#[trigger] rest[j], folder);
            let i = if j < index {
                j
            } else {
                j + 1
            };
            assert(rest[j] == outcomes[i]);
            assert(provides_folder(outcomes[i], folder));
        }
    }
    assert forall|folder: u64| #[trigger]
        combined_outcomes(outcomes).contains_key(folder) implies combined_outcomes(outcomes)[folder]
        =~= combined_outcomes(rest)[folder] by {
        assert forall|file: u64|
            combined_outcomes(outcomes)[folder].contains(file) <==> combined_outcomes(
                rest,
            )[folder].contains(file) by {
            if combined_outcomes(outcomes)[folder].contains(file) {
                let i = choose|i: int|
                    0 <= i < outcomes.len() && provides_asset(#[trigger] outcomes[i], folder, file);
                let j = if i < index {
                    i
                } else {
                    i - 1
                };
                assert(rest[j] == outcomes[i]);
                assert(provides_asset(rest[j], folder, file));
            }
            if combined_outcomes(rest)[folder].contains(file) {
                let j = choose|j: int|
                    0 <= j < rest.len() && provides_asset(#[trigger] rest[j], folder, file);
                let i = if j < index {
                    j
                } else {
                    j + 1
                };
                assert(rest[j] == outcomes[i]);
                assert(provides_asset(outcomes[i], folder, file));
            }
        }
    }
    assert(combined_outcomes(outcomes) =~= combined_outcomes(rest));
}

/// An archive that cannot be read or decoded changes nothing: the assets of
/// the list are those of the list without it.
pub proof fn law_failed_archive_adds_nothing(archives: Seq<ArchiveFile>, index: int)
    requires
        0 <= index < archives.len(),
        archive_outcome(archives[index]) is Err,
    ensures
        combined_assets(archives) == combined_assets(archives.remove(index)),
{
    let outcomes = outcomes_of(archives);
    assert(outcomes[index] == archive_outcome(archives[index]));
    assert(outcomes_of(archives.remove(index)) =~= outcomes.remove(index));
    lemma_error_adds_nothing(outcomes, index);
}

} // verus!
