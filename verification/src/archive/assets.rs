//! The mathematical model of an asset map.

use std::collections::{BTreeMap, BTreeSet};
use vstd::prelude::*;

verus! {

/// Folder name hashes, each with the hashes of the names of its files.
pub type AssetMap = BTreeMap<u64, BTreeSet<u64>>;

/// What an asset map holds: for each folder hash, the set of its file hashes.
pub open spec fn assets_of(assets: AssetMap) -> Map<u64, Set<u64>> {
    assets@.map_values(|files: BTreeSet<u64>| files@)
}

/// The `(folder hash, file hash)` pairs of a model asset map.
pub open spec fn asset_pairs(assets: Map<u64, Set<u64>>) -> Set<(u64, u64)> {
    Set::new(|pair: (u64, u64)| assets.contains_key(pair.0) && assets[pair.0].contains(pair.1))
}

/// The model of what decoding returned, asset map or error.
pub open spec fn outcome_of<E>(result: Result<AssetMap, E>) -> Result<Map<u64, Set<u64>>, E> {
    match result {
        Ok(assets) => Ok(assets_of(assets)),
        Err(error) => Err(error),
    }
}

/// Adding a folder to an asset map adds it to the model.
pub proof fn lemma_assets_of_insert(before: AssetMap, after: AssetMap, folder: u64, files: BTreeSet<u64>)
    requires
        after@ == before@.insert(folder, files),
    ensures
        assets_of(after) == assets_of(before).insert(folder, files@),
{
    assert(assets_of(after) =~= assets_of(before).insert(folder, files@));
}

} // verus!
