//! The games that are told apart, and what is remembered of an installed
//! game.

use crate::path::FilePath;
use vstd::prelude::*;

verus! {

/// The games, by the family of rules that they follow.
#[derive(Clone, Copy, Debug, PartialEq, Eq, Hash)]
pub enum GameType {
    /// The Elder Scrolls IV: Oblivion
    TES4,
    /// The Elder Scrolls V: Skyrim
    TES5,
    /// Fallout 3
    FO3,
    /// Fallout: New Vegas
    FONV,
    /// Fallout 4
    FO4,
    /// The Elder Scrolls V: Skyrim Special Edition
    TES5SE,
    /// Fallout 4 VR
    FO4VR,
    /// Skyrim VR
    TES5VR,
    /// The Elder Scrolls III: Morrowind
    TES3,
    /// Starfield
    Starfield,
    /// OpenMW
    OpenMW,
}

/// What is remembered of an installed game between calls: here, the
/// archives that were found for the current load order.
pub struct GameCache {
    pub archive_paths: Vec<FilePath>,
}

impl GameCache {
    /// A cache that knows of no archive.
    pub fn new() -> (cache: GameCache)
        ensures
            cache.archive_paths@.len() == 0,
    {
        GameCache { archive_paths: Vec::new() }
    }

    /// Replaces the archives that the cache knows of.
    pub fn set_archive_paths(&mut self, archive_paths: Vec<FilePath>)
        ensures
            final(self).archive_paths == archive_paths,
    {
        self.archive_paths = archive_paths;
    }

    /// The archives that the cache knows of, in the order in which they were
    /// given.
    pub fn archives(&self) -> (archive_paths: &Vec<FilePath>)
        ensures
            archive_paths == self.archive_paths,
    {
        &self.archive_paths
    }
}

} // verus!
