//! The BA2 archive format, as far as this library knows it: its type tag.
//! Its directory is decoded elsewhere, and the result is handed to
//! [`crate::archive::parse::get_assets_in_archive`].

use vstd::prelude::*;

verus! {

/// The type tag that a BA2 archive starts with.
pub const TYPE_ID: [u8; 4] = [0x42, 0x54, 0x44, 0x58];

} // verus!
