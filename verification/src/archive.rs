//! Reading Bethesda archives and finding the archives that a plugin loads.

pub mod assets;
pub mod ba2;
pub mod bsa;
pub mod error;
pub mod find;
pub mod parse;
