//! Finding the archives that a plugin loads.
//!
//! Which archives a game loads for a plugin depends on the game. The rules
//! read the names of files only; whether a file is there, and which file it
//! is, they take from a [`FileSystemSnapshot`].

use crate::filesystem::{
    are_file_paths_equivalent, spec_are_file_paths_equivalent, spec_file_exists, spec_lookup,
    FileEntry, FileSystemSnapshot,
};
use crate::game::{GameCache, GameType};
use crate::path::{
    extension, file_stem, has_ascii_extension, join_extension, path_texts, spec_extension,
    spec_file_stem, spec_has_ascii_extension, spec_join_extension, FilePath, PathText,
};
use crate::text::{chars_of, eq_ignore_ascii_case, spec_eq_ignore_ascii_case};
use vstd::prelude::*;
use vstd::string::*;
use vstd::utf8::{decode_utf8, encode_utf8, is_char_boundary};

verus! {

/// The kinds of rule by which a game ties archives to a plugin.
#[derive(Clone, Copy, Debug, PartialEq, Eq)]
pub enum AssociationPolicy {
    /// The game ties no archive to a plugin.
    NoArchives,
    /// The archive has the name of the plugin, with the extension of an
    /// archive.
    ExactBasename,
    /// The archive has the stem of the plugin's name, then one of a fixed
    /// list of suffixes, then the extension of an archive.
    SuffixList,
    /// The name of the archive starts with the stem of the plugin's name.
    ArbitraryPrefix,
}

/// The kind of rule that a game follows.
pub open spec fn spec_association_policy(game_type: GameType) -> AssociationPolicy {
    match game_type {
        GameType::TES3 | GameType::OpenMW => AssociationPolicy::NoArchives,
        GameType::TES5 => AssociationPolicy::ExactBasename,
        GameType::TES5SE | GameType::TES5VR | GameType::Starfield => AssociationPolicy::SuffixList,
        GameType::TES4 | GameType::FO3 | GameType::FONV | GameType::FO4 | GameType::FO4VR =>
            AssociationPolicy::ArbitraryPrefix,
    }
}

/// Tells the kind of rule that a game follows.
pub fn association_policy(game_type: GameType) -> (policy: AssociationPolicy)
    ensures
        policy == spec_association_policy(game_type),
{
    match game_type {
        GameType::TES3 | GameType::OpenMW => AssociationPolicy::NoArchives,
        GameType::TES5 => AssociationPolicy::ExactBasename,
        GameType::TES5SE | GameType::TES5VR | GameType::Starfield => AssociationPolicy::SuffixList,
        GameType::TES4 | GameType::FO3 | GameType::FONV | GameType::FO4 | GameType::FO4VR =>
            AssociationPolicy::ArbitraryPrefix,
    }
}

/// The test that keeps the paths that lead to a file.
pub open spec fn leads_to_file(files: Seq<FileEntry>) -> spec_fn(PathText) -> bool {
    |path: PathText| spec_file_exists(files, path)
}

/// The archive beside a plugin whose name is the plugin's stem, the given
/// suffix, a dot and the given extension.
pub open spec fn archive_candidate(plugin: PathText, suffix: Seq<char>, archive_extension: Seq<char>) -> PathText {
    PathText {
        directory: plugin.directory,
        file_name: spec_join_extension(spec_file_stem(plugin.file_name) + suffix, archive_extension),
    }
}

/// The archive that has the name of the plugin but for its extension, if it
/// is there.
pub open spec fn spec_find_associated_archive(plugin: PathText, files: Seq<FileEntry>) -> Seq<PathText> {
    let candidate = archive_candidate(plugin, Seq::empty(), "bsa"@);
    if spec_file_exists(files, candidate) {
        seq![candidate]
    } else {
        Seq::empty()
    }
}

/// Finds the archive that has the name of the plugin but for its extension.
/// The result holds that archive if it is there, and nothing else.
pub fn find_associated_archive(plugin_path: &FilePath, files: &FileSystemSnapshot) -> (archives: Vec<
    FilePath,
>)
    ensures
        path_texts(archives@) == spec_find_associated_archive(plugin_path@, files.entries@),
        archives@.len() <= 1,
        forall|i: int|
            0 <= i < archives@.len() ==> spec_file_exists(files.entries@, (#[trigger] archives@[i])@),
{
    let stem = file_stem(plugin_path.file_name.as_str());
    let archive_path = plugin_path.with_file_name(join_extension(stem.as_str(), "bsa"));
    assert(archive_path@ =~= archive_candidate(plugin_path@, Seq::empty(), "bsa"@));

    let mut archives: Vec<FilePath> = Vec::new();
    if files.file_exists(&archive_path) {
        archives.push(archive_path);
        assert(path_texts(archives@) =~= seq![archive_path@]);
    } else {
        assert(path_texts(archives@) =~= Seq::<PathText>::empty());
    }
    archives
}

/// The texts of a list of suffixes.
pub open spec fn suffix_texts(suffixes: Seq<&str>) -> Seq<Seq<char>> {
    suffixes.map_values(|suffix: &str| suffix@)
}

/// The archives that a list of suffixes stands for, in the order of the
/// list.
pub open spec fn suffix_candidates(
    plugin: PathText,
    archive_extension: Seq<char>,
    suffixes: Seq<Seq<char>>,
) -> Seq<PathText> {
    suffixes.map_values(|suffix: Seq<char>| archive_candidate(plugin, suffix, archive_extension))
}

/// The archives that a list of suffixes stands for and that are there, in
/// the order of the list.
pub open spec fn spec_find_associated_archives_with_suffixes(
    plugin: PathText,
    archive_extension: Seq<char>,
    suffixes: Seq<Seq<char>>,
    files: Seq<FileEntry>,
) -> Seq<PathText> {
    suffix_candidates(plugin, archive_extension, suffixes).filter(leads_to_file(files))
}

/// Finds the archives whose name is the stem of the plugin's name, one of
/// the given suffixes, a dot and the given extension. The result holds
/// those that are there, in the order of the suffixes.
pub fn find_associated_archives_with_suffixes(
    plugin_path: &FilePath,
    archive_extension: &str,
    supported_suffixes: &[&str],
    files: &FileSystemSnapshot,
) -> (archives: Vec<FilePath>)
    ensures
        path_texts(archives@) == spec_find_associated_archives_with_suffixes(
            plugin_path@,
            archive_extension@,
            suffix_texts(supported_suffixes@),
            files.entries@,
        ),
        forall|i: int|
            0 <= i < archives@.len() ==> spec_file_exists(files.entries@, (#[trigger] archives@[i])@),
{
    let file_stem = file_stem(plugin_path.file_name.as_str());
    let ghost candidates = suffix_candidates(
        plugin_path@,
        archive_extension@,
        suffix_texts(supported_suffixes@),
    );

    let mut archives: Vec<FilePath> = Vec::new();
    let mut index: usize = 0;
    proof {
        reveal(Seq::filter);
        assert(candidates.take(0).filter(leads_to_file(files.entries@)) =~= Seq::<PathText>::empty());
        assert(path_texts(archives@) =~= Seq::<PathText>::empty());
    }
    while index < supported_suffixes.len()
        invariant
            index <= supported_suffixes@.len(),
            file_stem@ == spec_file_stem(plugin_path.file_name@),
            candidates == suffix_candidates(
                plugin_path@,
                archive_extension@,
                suffix_texts(supported_suffixes@),
            ),
            path_texts(archives@) == candidates.take(index as int).filter(
                leads_to_file(files.entries@),
            ),
            forall|i: int|
                0 <= i < archives@.len() ==> spec_file_exists(
                    files.entries@,
                    (#[trigger] archives@[i])@,
                ),
        decreases supported_suffixes@.len() - index,
    {
        let mut filename = file_stem.clone();
        filename.append(supported_suffixes[index]);
        let path = plugin_path.with_file_name(join_extension(filename.as_str(), archive_extension));
        let ghost before = archives@;
        proof {
            assert(path@ =~= candidates[index as int]);
            assert(candidates.take(index + 1) =~= candidates.take(index as int).push(
                candidates[index as int],
            ));
            candidates.take(index as int).lemma_filter_push(
                candidates[index as int],
                leads_to_file(files.entries@),
            );
        }
        if files.file_exists(&path) {
            archives.push(path);
            assert(path_texts(archives@) =~= path_texts(before).push(path@));
        }
        index = index + 1;
    }
    assert(candidates.take(index as int) =~= candidates);
    archives
}

/// The text that the first `length` bytes of a name stand for.
pub open spec fn name_prefix(name: Seq<char>, length: int) -> Seq<char> {
    decode_utf8(encode_utf8(name).subrange(0, length))
}

/// Whether the name of an archive starts with the stem of the name of a
/// plugin, but for the case of ASCII letters: the name is cut where the
/// stem would end, counted in bytes, which must not fall inside a
/// character.
pub open spec fn starts_with_plugin_stem(plugin_name: Seq<char>, archive_name: Seq<char>) -> bool {
    let stem = spec_file_stem(plugin_name);
    let length = encode_utf8(stem).len() as int;
    &&& length <= encode_utf8(archive_name).len()
    &&& is_char_boundary(encode_utf8(archive_name), length)
    &&& spec_eq_ignore_ascii_case(name_prefix(archive_name, length), stem)
}

/// The path of the plugin that an archive would belong to by the start of
/// its name: beside the plugin, with the start of the archive's name for
/// its stem, and with the plugin's extension.
pub open spec fn plugin_of_archive(plugin: PathText, archive_name: Seq<char>) -> PathText {
    PathText {
        directory: plugin.directory,
        file_name: spec_join_extension(
            name_prefix(archive_name, encode_utf8(spec_file_stem(plugin.file_name)).len() as int),
            spec_extension(plugin.file_name)->Some_0,
        ),
    }
}

/// Whether a plugin loads an archive by the start of the archive's name:
/// the plugin has an extension, the archive's name starts with the plugin's
/// stem, and the plugin that the archive would belong to is the same file
/// as the plugin.
pub open spec fn loads_by_prefix(plugin: PathText, archive: PathText, files: Seq<FileEntry>) -> bool {
    &&& spec_extension(plugin.file_name) is Some
    &&& starts_with_plugin_stem(plugin.file_name, archive.file_name)
    &&& spec_are_file_paths_equivalent(
        files,
        plugin_of_archive(plugin, archive.file_name),
        plugin,
    )
}

/// The test that keeps the archives that a plugin loads by the start of
/// their names.
pub open spec fn loaded_by_prefix(plugin: PathText, files: Seq<FileEntry>) -> spec_fn(PathText) -> bool {
    |archive: PathText| loads_by_prefix(plugin, archive, files)
}

/// The archives among the known ones that a plugin loads by the start of
/// their names, in the order in which they are known.
pub open spec fn spec_find_associated_archives_with_arbitrary_suffixes(
    plugin: PathText,
    archives: Seq<PathText>,
    files: Seq<FileEntry>,
) -> Seq<PathText> {
    archives.filter(loaded_by_prefix(plugin, files))
}

/// Decides whether a plugin with the given stem and extension loads an
/// archive by the start of the archive's name.
fn plugin_loads_by_prefix(
    plugin_path: &FilePath,
    plugin_stem: &str,
    plugin_extension: &str,
    archive_path: &FilePath,
    files: &FileSystemSnapshot,
) -> (loads: bool)
    requires
        plugin_stem@ == spec_file_stem(plugin_path.file_name@),
        spec_extension(plugin_path.file_name@) == Some(plugin_extension@),
    ensures
        loads == loads_by_prefix(plugin_path@, archive_path@, files.entries@),
{
    let archive_filename = archive_path.file_name.as_str();
    let plugin_stem_len: usize = plugin_stem.as_bytes().len();

    if archive_filename.as_bytes().len() < plugin_stem_len {
        return false;
    }
    if !archive_filename.is_char_boundary(plugin_stem_len) {
        return false;
    }
    let (filename, _) = archive_filename.split_at(plugin_stem_len);
    proof {
        vstd::utf8::encode_utf8_decode_utf8(filename@);
        assert(filename@ == name_prefix(archive_filename@, plugin_stem_len as int));
    }
    let filename_chars = chars_of(filename);
    let plugin_stem_chars = chars_of(plugin_stem);
    if !eq_ignore_ascii_case(filename_chars.as_slice(), plugin_stem_chars.as_slice()) {
        return false;
    }
    let archive_plugin_path = plugin_path.with_file_name(join_extension(filename, plugin_extension));
    assert(archive_plugin_path@ =~= plugin_of_archive(plugin_path@, archive_path.file_name@));

    are_file_paths_equivalent(&archive_plugin_path, plugin_path, files)
}

/// Finds the archives, among those that the cache knows of, whose names
/// start with the stem of the plugin's name and for which the plugin that
/// such a name stands for is the same file as the plugin. A plugin without
/// an extension loads none.
pub fn find_associated_archives_with_arbitrary_suffixes(
    plugin_path: &FilePath,
    game_cache: &GameCache,
    files: &FileSystemSnapshot,
) -> (archives: Vec<FilePath>)
    ensures
        path_texts(archives@) == spec_find_associated_archives_with_arbitrary_suffixes(
            plugin_path@,
            path_texts(game_cache.archive_paths@),
            files.entries@,
        ),
        forall|i: int|
            0 <= i < archives@.len() ==> loads_by_prefix(
                plugin_path@,
                (#[trigger] archives@[i])@,
                files.entries@,
            ),
{
    let plugin_stem = file_stem(plugin_path.file_name.as_str());
    let ghost known = path_texts(game_cache.archive_paths@);
    let ghost test = loaded_by_prefix(plugin_path@, files.entries@);
    let mut archives: Vec<FilePath> = Vec::new();
    proof {
        reveal(Seq::filter);
        assert(known.take(0).filter(test) =~= Seq::<PathText>::empty());
        assert(path_texts(archives@) =~= Seq::<PathText>::empty());
    }
    let plugin_extension = match extension(plugin_path.file_name.as_str()) {
        Some(e) => e,
        None => {
            proof {
                known.lemma_all_neg_filter_empty(test);
            }
            return archives;
        },
    };

    let cached = game_cache.archives();
    let mut index: usize = 0;
    while index < cached.len()
        invariant
            index <= cached@.len(),
            cached@ == game_cache.archive_paths@,
            known == path_texts(game_cache.archive_paths@),
            test == loaded_by_prefix(plugin_path@, files.entries@),
            plugin_stem@ == spec_file_stem(plugin_path.file_name@),
            spec_extension(plugin_path.file_name@) == Some(plugin_extension@),
            path_texts(archives@) == known.take(index as int).filter(test),
            forall|i: int|
                0 <= i < archives@.len() ==> loads_by_prefix(
                    plugin_path@,
                    (#[trigger] archives@[i])@,
                    files.entries@,
                ),
        decreases cached@.len() - index,
    {
        let path = &cached[index];
        let ghost before = archives@;
        proof {
            assert(known[index as int] == path@);
            assert(known.take(index + 1) =~= known.take(index as int).push(known[index as int]));
            known.take(index as int).lemma_filter_push(known[index as int], test);
        }
        if plugin_loads_by_prefix(
            plugin_path,
            plugin_stem.as_str(),
            plugin_extension.as_str(),
            path,
            files,
        ) {
            let found = path.duplicate();
            archives.push(found);
            assert(path_texts(archives@) =~= path_texts(before).push(path@));
        }
        index = index + 1;
    }
    assert(known.take(index as int) =~= known);
    archives
}

/// The archives that a game loads for a plugin: what the rule of the game
/// makes of the plugin's name, of the archives that are known, and of the
/// files that are there.
pub open spec fn spec_find_associated_archives(
    game_type: GameType,
    archives: Seq<PathText>,
    plugin: PathText,
    files: Seq<FileEntry>,
) -> Seq<PathText> {
    match game_type {
        GameType::TES3 | GameType::OpenMW => Seq::empty(),
        GameType::TES5 => spec_find_associated_archive(plugin, files),
        GameType::TES5SE | GameType::TES5VR => spec_find_associated_archives_with_suffixes(
            plugin,
            "bsa"@,
            seq![""@, " - Textures"@],
            files,
        ),
        GameType::TES4 => if spec_has_ascii_extension(plugin.file_name, "esp"@) {
            spec_find_associated_archives_with_arbitrary_suffixes(plugin, archives, files)
        } else {
            Seq::empty()
        },
        GameType::FO3 | GameType::FONV | GameType::FO4 | GameType::FO4VR =>
            spec_find_associated_archives_with_arbitrary_suffixes(plugin, archives, files),
        GameType::Starfield => spec_find_associated_archives_with_suffixes(
            plugin,
            "ba2"@,
            seq![" - Main"@, " - Textures"@, " - Localization"@, " - Voices_en"@],
            files,
        ),
    }
}

/// Finds the archives that a game loads for a plugin.
pub fn find_associated_archives(
    game_type: GameType,
    game_cache: &GameCache,
    plugin_path: &FilePath,
    files: &FileSystemSnapshot,
) -> (archives: Vec<FilePath>)
    ensures
        path_texts(archives@) == spec_find_associated_archives(
            game_type,
            path_texts(game_cache.archive_paths@),
            plugin_path@,
            files.entries@,
        ),
{
    match game_type {
        GameType::TES3 | GameType::OpenMW => {
            let archives: Vec<FilePath> = Vec::new();
            assert(path_texts(archives@) =~= Seq::<PathText>::empty());
            archives
        },
        // Skyrim (non-SE) plugins can only load BSAs that have exactly the same
        // basename, ignoring file extensions.
        GameType::TES5 => find_associated_archive(plugin_path, files),
        // Skyrim SE can load BSAs that have exactly the same basename, ignoring
        // file extensions, and also BSAs with filenames of the form "<basename>
        // - Textures.bsa" (case-insensitively). This assumes that Skyrim VR
        // works the same way as Skyrim SE.
        GameType::TES5SE | GameType::TES5VR => {
            let suffixes: [&str; 2] = ["", " - Textures"];
            assert(suffix_texts(suffixes@) =~= seq![""@, " - Textures"@]);
            find_associated_archives_with_suffixes(plugin_path, "bsa", suffixes.as_slice(), files)
        },
        // Oblivion .esp files can load archives which begin with the plugin
        // basename.
        GameType::TES4 => {
            if has_ascii_extension(plugin_path.file_name.as_str(), "esp") {
                find_associated_archives_with_arbitrary_suffixes(plugin_path, game_cache, files)
            } else {
                let archives: Vec<FilePath> = Vec::new();
                assert(path_texts(archives@) =~= Seq::<PathText>::empty());
                archives
            }
        },
        // FO3, FNV, FO4 plugins can load archives which begin with the plugin
        // basename. This assumes that FO4 VR works the same way as FO4.
        GameType::FO3 | GameType::FONV | GameType::FO4 | GameType::FO4VR =>
            find_associated_archives_with_arbitrary_suffixes(plugin_path, game_cache, files),
        // The game will load a BA2 that's suffixed with " - Voices_<language>"
        // where <language> is whatever language Starfield is configured to use
        // (sLanguage in the ini), so this isn't exactly correct but will work
        // so long as a plugin with voices has voices for English, which seems
        // likely.
        GameType::Starfield => {
            let suffixes: [&str; 4] = [" - Main", " - Textures", " - Localization", " - Voices_en"];
            assert(suffix_texts(suffixes@) =~= seq![
                " - Main"@,
                " - Textures"@,
                " - Localization"@,
                " - Voices_en"@,
            ]);
            find_associated_archives_with_suffixes(plugin_path, "ba2", suffixes.as_slice(), files)
        },
    }
}

/// Every element that a test keeps of a list stands in the list.
pub proof fn lemma_kept_is_listed<A>(list: Seq<A>, test: spec_fn(A) -> bool, kept: int)
    requires
        0 <= kept < list.filter(test).len(),
    ensures
        exists|at: int| 0 <= at < list.len() && list[at] == list.filter(test)[kept],
    decreases list.len(),
{
    reveal(Seq::filter);
    if list.len() > 0 {
        let shorter = list.drop_last();
        if test(list.last()) && kept == shorter.filter(test).len() {
            assert(list[list.len() - 1] == list.filter(test)[kept]);
        } else {
            lemma_kept_is_listed(shorter, test, kept);
            let at = choose|at: int| 0 <= at < shorter.len() && shorter[at] == shorter.filter(test)[kept];
            assert(list[at] == list.filter(test)[kept]);
        }
    }
}

/// What a test keeps of a list stands in the order of the list: of two kept
/// elements, the earlier one stands earlier in the list.
pub proof fn lemma_kept_in_order<A>(list: Seq<A>, test: spec_fn(A) -> bool, first: int, second: int)
    requires
        0 <= first < second < list.filter(test).len(),
    ensures
        exists|a: int, b: int|
            0 <= a < b < list.len() && list[a] == list.filter(test)[first] && list[b]
                == list.filter(test)[second],
    decreases list.len(),
{
    reveal(Seq::filter);
    if list.len() > 0 {
        let shorter = list.drop_last();
        if test(list.last()) && second == shorter.filter(test).len() {
            lemma_kept_is_listed(shorter, test, first);
            let a = choose|a: int| 0 <= a < shorter.len() && shorter[a] == shorter.filter(test)[first];
            let b = list.len() - 1;
            assert(0 <= a < b < list.len() && list[a] == list.filter(test)[first] && list[b]
                == list.filter(test)[second]);
        } else {
            lemma_kept_in_order(shorter, test, first, second);
            let (a, b) = choose|a: int, b: int|
                0 <= a < b < shorter.len() && shorter[a] == shorter.filter(test)[first]
                    && shorter[b] == shorter.filter(test)[second];
            assert(0 <= a < b < list.len() && list[a] == list.filter(test)[first] && list[b]
                == list.filter(test)[second]);
        }
    }
}

/// The rule of the exact name yields no archive or one, and one only if it
/// is there.
pub proof fn law_exact_basename_yields_at_most_one(plugin: PathText, files: Seq<FileEntry>)
    ensures
        spec_find_associated_archive(plugin, files).len() <= 1,
        forall|i: int|
            0 <= i < spec_find_associated_archive(plugin, files).len() ==> spec_file_exists(
                files,
                #[trigger] spec_find_associated_archive(plugin, files)[i],
            ),
        spec_find_associated_archive(plugin, files).len() == 1 <==> spec_file_exists(
            files,
            archive_candidate(plugin, Seq::empty(), "bsa"@),
        ),
{
}

/// The rule of the list of suffixes yields only archives that are there,
/// and every archive of a suffix of the list that is there.
pub proof fn law_suffix_list_yields_the_existing(
    plugin: PathText,
    archive_extension: Seq<char>,
    suffixes: Seq<Seq<char>>,
    files: Seq<FileEntry>,
    archive: PathText,
)
    ensures
        spec_find_associated_archives_with_suffixes(
            plugin,
            archive_extension,
            suffixes,
            files,
        ).contains(archive) <==> suffix_candidates(plugin, archive_extension, suffixes).contains(
            archive,
        ) && spec_file_exists(files, archive),
{
    let candidates = suffix_candidates(plugin, archive_extension, suffixes);
    let test = leads_to_file(files);
    let found = candidates.filter(test);
    if found.contains(archive) {
        let at = choose|at: int| 0 <= at < found.len() && found[at] == archive;
        candidates.lemma_filter_pred(test, at);
        lemma_kept_is_listed(candidates, test, at);
    }
    if candidates.contains(archive) && spec_file_exists(files, archive) {
        let at = choose|at: int| 0 <= at < candidates.len() && candidates[at] == archive;
        candidates.lemma_filter_contains(test, at);
    }
}

/// The rule of the list of suffixes yields its archives in the order of the
/// list: of two archives in the result, the earlier one is that of an
/// earlier suffix.
pub proof fn law_suffix_list_keeps_order(
    plugin: PathText,
    archive_extension: Seq<char>,
    suffixes: Seq<Seq<char>>,
    files: Seq<FileEntry>,
    first: int,
    second: int,
)
    requires
        0 <= first < second < spec_find_associated_archives_with_suffixes(
            plugin,
            archive_extension,
            suffixes,
            files,
        ).len(),
    ensures
        exists|a: int, b: int|
            0 <= a < b < suffixes.len() && #[trigger] archive_candidate(
                plugin,
                suffixes[a],
                archive_extension,
            ) == spec_find_associated_archives_with_suffixes(
                plugin,
                archive_extension,
                suffixes,
                files,
            )[first] && #[trigger] archive_candidate(plugin, suffixes[b], archive_extension)
                == spec_find_associated_archives_with_suffixes(
                plugin,
                archive_extension,
                suffixes,
                files,
            )[second],
{
    let candidates = suffix_candidates(plugin, archive_extension, suffixes);
    let test = leads_to_file(files);
    let found = candidates.filter(test);
    lemma_kept_in_order(candidates, test, first, second);
    let (a, b) = choose|a: int, b: int|
        0 <= a < b < candidates.len() && candidates[a] == found[first] && candidates[b]
            == found[second];
    assert(archive_candidate(plugin, suffixes[a], archive_extension) == found[first]);
    assert(archive_candidate(plugin, suffixes[b], archive_extension) == found[second]);
}

/// The rule of the start of the name leaves out every archive for which the
/// plugin that its name stands for is not the same file as the plugin, even
/// where the archive's name starts with the plugin's stem.
pub proof fn law_prefix_without_identity_is_left_out(
    plugin: PathText,
    archives: Seq<PathText>,
    files: Seq<FileEntry>,
    archive: PathText,
)
    requires
        !spec_are_file_paths_equivalent(files, plugin_of_archive(plugin, archive.file_name), plugin),
    ensures
        !spec_find_associated_archives_with_arbitrary_suffixes(plugin, archives, files).contains(
            archive,
        ),
{
    let test = loaded_by_prefix(plugin, files);
    let found = archives.filter(test);
    if found.contains(archive) {
        let at = choose|at: int| 0 <= at < found.len() && found[at] == archive;
        archives.lemma_filter_pred(test, at);
    }
}

/// The rule of the start of the name yields exactly the known archives that
/// the plugin loads by the start of their names, each as often as it is
/// known.
pub proof fn law_prefix_yields_the_loaded(
    plugin: PathText,
    archives: Seq<PathText>,
    files: Seq<FileEntry>,
    archive: PathText,
)
    ensures
        spec_find_associated_archives_with_arbitrary_suffixes(plugin, archives, files).contains(
            archive,
        ) <==> archives.contains(archive) && loads_by_prefix(plugin, archive, files),
{
    let test = loaded_by_prefix(plugin, files);
    let found = archives.filter(test);
    if found.contains(archive) {
        let at = choose|at: int| 0 <= at < found.len() && found[at] == archive;
        archives.lemma_filter_pred(test, at);
        lemma_kept_is_listed(archives, test, at);
    }
    if archives.contains(archive) && loads_by_prefix(plugin, archive, files) {
        let at = choose|at: int| 0 <= at < archives.len() && archives[at] == archive;
        archives.lemma_filter_contains(test, at);
    }
}

/// The paths of which the rules of a game ask whether a file is there, or
/// which file it is, when they look for the archives of a plugin: the
/// archives that the game would load by their names, or the plugin and the
/// plugins that the known archives would belong to by the start of their
/// names.
pub open spec fn spec_paths_to_probe(game_type: GameType, archives: Seq<PathText>, plugin: PathText) -> Seq<
    PathText,
> {
    match game_type {
        GameType::TES3 | GameType::OpenMW => Seq::empty(),
        GameType::TES5 => seq![archive_candidate(plugin, Seq::empty(), "bsa"@)],
        GameType::TES5SE | GameType::TES5VR => suffix_candidates(
            plugin,
            "bsa"@,
            seq![""@, " - Textures"@],
        ),
        GameType::Starfield => suffix_candidates(
            plugin,
            "ba2"@,
            seq![" - Main"@, " - Textures"@, " - Localization"@, " - Voices_en"@],
        ),
        GameType::TES4 | GameType::FO3 | GameType::FONV | GameType::FO4 | GameType::FO4VR =>
            seq![plugin] + archives.map_values(
                |archive: PathText| plugin_of_archive(plugin, archive.file_name),
            ),
    }
}

/// The plugin that an archive would belong to by the start of its name, or
/// the plugin itself where the name of the archive is too short or cannot
/// be cut where the stem of the plugin's name would end.
fn probe_for_archive(plugin_path: &FilePath, plugin_stem: &str, plugin_extension: &str, archive_path: &FilePath) -> (probe:
    Option<FilePath>)
    requires
        plugin_stem@ == spec_file_stem(plugin_path.file_name@),
        spec_extension(plugin_path.file_name@) == Some(plugin_extension@),
    ensures
        probe matches Some(path) ==> path@ == plugin_of_archive(plugin_path@, archive_path.file_name@),
        probe is None ==> !starts_with_plugin_stem(plugin_path.file_name@, archive_path.file_name@),
{
    let archive_filename = archive_path.file_name.as_str();
    let plugin_stem_len: usize = plugin_stem.as_bytes().len();
    if archive_filename.as_bytes().len() < plugin_stem_len {
        return None;
    }
    if !archive_filename.is_char_boundary(plugin_stem_len) {
        return None;
    }
    let (filename, _) = archive_filename.split_at(plugin_stem_len);
    proof {
        vstd::utf8::encode_utf8_decode_utf8(filename@);
        assert(filename@ == name_prefix(archive_filename@, plugin_stem_len as int));
    }
    let path = plugin_path.with_file_name(join_extension(filename, plugin_extension));
    assert(path@ =~= plugin_of_archive(plugin_path@, archive_path.file_name@));
    Some(path)
}

/// Lists the paths that have to be looked at on disk before
/// [`find_associated_archives`] is asked for the archives of a plugin: a
/// snapshot that records what is found at each of them holds all that the
/// rules read. The list holds every path that the rules may ask about, and
/// no other.
pub fn paths_to_probe(game_type: GameType, game_cache: &GameCache, plugin_path: &FilePath) -> (paths:
    Vec<FilePath>)
    ensures
        forall|i: int|
            0 <= i < paths@.len() ==> spec_paths_to_probe(
                game_type,
                path_texts(game_cache.archive_paths@),
                plugin_path@,
            ).contains(#[trigger] path_texts(paths@)[i]),
        forall|archive: PathText|
            #![trigger starts_with_plugin_stem(plugin_path.file_name@, archive.file_name)]
            spec_association_policy(game_type) is ArbitraryPrefix && path_texts(
                game_cache.archive_paths@,
            ).contains(archive) && spec_extension(plugin_path.file_name@) is Some
                && starts_with_plugin_stem(plugin_path.file_name@, archive.file_name)
                ==> path_texts(paths@).contains(plugin_of_archive(plugin_path@, archive.file_name)),
        spec_association_policy(game_type) is ArbitraryPrefix && spec_extension(
            plugin_path.file_name@,
        ) is Some ==> path_texts(paths@).contains(plugin_path@),
        !(spec_association_policy(game_type) is ArbitraryPrefix) ==> path_texts(paths@)
            == spec_paths_to_probe(
            game_type,
            path_texts(game_cache.archive_paths@),
            plugin_path@,
        ),
{
    let mut paths: Vec<FilePath> = Vec::new();
    let ghost expected = spec_paths_to_probe(
        game_type,
        path_texts(game_cache.archive_paths@),
        plugin_path@,
    );
    match association_policy(game_type) {
        AssociationPolicy::NoArchives => {
            assert(path_texts(paths@) =~= expected);
        },
        AssociationPolicy::ExactBasename => {
            let stem = file_stem(plugin_path.file_name.as_str());
            let path = plugin_path.with_file_name(join_extension(stem.as_str(), "bsa"));
            assert(path@ =~= archive_candidate(plugin_path@, Seq::empty(), "bsa"@));
            paths.push(path);
            assert(path_texts(paths@) =~= expected);
            assert(forall|i: int| 0 <= i < paths@.len() ==> path_texts(paths@)[i] == expected[i]);
        },
        AssociationPolicy::SuffixList => {
            let starfield = match game_type {
                GameType::Starfield => true,
                _ => false,
            };
            let suffixes: Vec<&'static str> = if starfield {
                let v: Vec<&'static str> = vec![" - Main", " - Textures", " - Localization", " - Voices_en"];
                assert(suffix_texts(v@) =~= seq![
                    " - Main"@,
                    " - Textures"@,
                    " - Localization"@,
                    " - Voices_en"@,
                ]);
                v
            } else {
                let v: Vec<&'static str> = vec!["", " - Textures"];
                assert(suffix_texts(v@) =~= seq![""@, " - Textures"@]);
                v
            };
            let archive_extension = if starfield {
                "ba2"
            } else {
                "bsa"
            };
            let stem = file_stem(plugin_path.file_name.as_str());
            let mut index: usize = 0;
            assert(path_texts(paths@) =~= expected.take(0));
            while index < suffixes.len()
                invariant
                    index <= suffixes@.len(),
                    stem@ == spec_file_stem(plugin_path.file_name@),
                    expected == suffix_candidates(
                        plugin_path@,
                        archive_extension@,
                        suffix_texts(suffixes@),
                    ),
                    path_texts(paths@) == expected.take(index as int),
                decreases suffixes@.len() - index,
            {
                let ghost before = paths@;
                let mut filename = stem.clone();
                filename.append(suffixes[index]);
                let path = plugin_path.with_file_name(
                    join_extension(filename.as_str(), archive_extension),
                );
                assert(path@ =~= expected[index as int]);
                paths.push(path);
                assert(path_texts(paths@) =~= path_texts(before).push(path@));
                assert(expected.take(index + 1) =~= expected.take(index as int).push(
                    expected[index as int],
                ));
                index = index + 1;
            }
            assert(expected.take(index as int) =~= expected);
            assert(forall|i: int| 0 <= i < paths@.len() ==> path_texts(paths@)[i] == expected[i]);
        },
        AssociationPolicy::ArbitraryPrefix => {
            let plugin_stem = file_stem(plugin_path.file_name.as_str());
            let plugin_extension = match extension(plugin_path.file_name.as_str()) {
                Some(e) => e,
                None => {
                    return paths;
                },
            };
            paths.push(plugin_path.duplicate());
            let ghost known = path_texts(game_cache.archive_paths@);
            assert(expected[0] == plugin_path@);
            assert(path_texts(paths@)[0] == plugin_path@);
            let cached = game_cache.archives();
            let mut index: usize = 0;
            while index < cached.len()
                invariant
                    index <= cached@.len(),
                    cached@ == game_cache.archive_paths@,
                    known == path_texts(game_cache.archive_paths@),
                    expected == seq![plugin_path@] + known.map_values(
                        |archive: PathText| plugin_of_archive(plugin_path@, archive.file_name),
                    ),
                    plugin_stem@ == spec_file_stem(plugin_path.file_name@),
                    spec_extension(plugin_path.file_name@) == Some(plugin_extension@),
                    paths@.len() >= 1,
                    path_texts(paths@)[0] == plugin_path@,
                    forall|i: int|
                        0 <= i < paths@.len() ==> expected.contains(#[trigger] path_texts(paths@)[i]),
                    forall|k: int|
                        0 <= k < index && starts_with_plugin_stem(
                            plugin_path.file_name@,
                            (#[trigger] known[k]).file_name,
                        ) ==> path_texts(paths@).contains(
                            plugin_of_archive(plugin_path@, known[k].file_name),
                        ),
                decreases cached@.len() - index,
            {
                let ghost before = paths@;
                assert(known[index as int] == cached@[index as int]@);
                match probe_for_archive(
                    plugin_path,
                    plugin_stem.as_str(),
                    plugin_extension.as_str(),
                    &cached[index],
                ) {
                    Some(path) => {
                        paths.push(path);
                        proof {
                            assert(path_texts(paths@) =~= path_texts(before).push(path@));
                            assert(expected[index + 1] == path@);
                            assert forall|i: int| 0 <= i < paths@.len() implies expected.contains(
                                #[trigger] path_texts(paths@)[i],
                            ) by {
                                if i < before.len() {
                                    assert(path_texts(paths@)[i] == path_texts(before)[i]);
                                }
                            }
                            assert forall|k: int|
                                0 <= k < index + 1 && starts_with_plugin_stem(
                                    plugin_path.file_name@,
                                    (#[trigger] known[k]).file_name,
                                ) implies path_texts(paths@).contains(
                                plugin_of_archive(plugin_path@, known[k].file_name),
                            ) by {
                                if k < index {
                                    let at = choose|at: int|
                                        0 <= at < path_texts(before).len() && path_texts(before)[at]
                                            == plugin_of_archive(plugin_path@, known[k].file_name);
                                    assert(path_texts(paths@)[at] == path_texts(before)[at]);
                                } else {
                                    assert(path_texts(paths@)[before.len() as int] == path@);
                                }
                            }
                        }
                    },
                    None => {},
                }
                index = index + 1;
            }
            proof {
                assert forall|archive: PathText|
                    #![trigger starts_with_plugin_stem(plugin_path.file_name@, archive.file_name)]
                    known.contains(archive) && starts_with_plugin_stem(
                        plugin_path.file_name@,
                        archive.file_name,
                    ) implies path_texts(paths@).contains(
                    plugin_of_archive(plugin_path@, archive.file_name),
                ) by {
                    let k = choose|k: int| 0 <= k < known.len() && known[k] == archive;
                    assert(starts_with_plugin_stem(plugin_path.file_name@, known[k].file_name));
                }
            }
        },
    }
    paths
}

/// Two records of the disk that say the same of every path that the rule of
/// the start of the name asks about lead to the same archives.
pub proof fn law_prefix_reads_the_probed_paths_only(
    plugin: PathText,
    archives: Seq<PathText>,
    first: Seq<FileEntry>,
    second: Seq<FileEntry>,
)
    requires
        spec_lookup(first, plugin) == spec_lookup(second, plugin),
        forall|i: int|
            0 <= i < archives.len() && starts_with_plugin_stem(
                plugin.file_name,
                (#[trigger] archives[i]).file_name,
            ) ==> spec_lookup(first, plugin_of_archive(plugin, archives[i].file_name))
                == spec_lookup(second, plugin_of_archive(plugin, archives[i].file_name)),
    ensures
        spec_find_associated_archives_with_arbitrary_suffixes(plugin, archives, first)
            == spec_find_associated_archives_with_arbitrary_suffixes(plugin, archives, second),
    decreases archives.len(),
{
    reveal(Seq::filter);
    if archives.len() > 0 {
        let shorter = archives.drop_last();
        assert forall|i: int|
            0 <= i < shorter.len() && starts_with_plugin_stem(
                plugin.file_name,
                (#[trigger] shorter[i]).file_name,
            ) implies spec_lookup(first, plugin_of_archive(plugin, shorter[i].file_name))
            == spec_lookup(second, plugin_of_archive(plugin, shorter[i].file_name)) by {
            assert(shorter[i] == archives[i]);
        }
        law_prefix_reads_the_probed_paths_only(plugin, shorter, first, second);
        let last = archives.last();
        assert(last == archives[archives.len() - 1]);
        assert(loads_by_prefix(plugin, last, first) == loads_by_prefix(plugin, last, second));
    }
}

} // verus!
