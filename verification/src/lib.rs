//! An index of the assets that Bethesda archive files provide, the rules that
//! tie archive files to plugins, and the metadata model for plugins.

pub mod archive;
pub mod filesystem;
pub mod game;
pub mod metadata;
pub mod path;
pub mod regex;
pub mod text;
