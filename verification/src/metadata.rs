//! The metadata that can be attached to plugins.

pub mod error;
pub mod file;
pub mod group;
pub mod location;
pub mod message;
pub mod plugin_cleaning_data;
pub mod plugin_metadata;
pub mod tag;
pub mod yaml;
pub mod yaml_emit;
