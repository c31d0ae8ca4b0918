//! The ways in which metadata can be refused.

use crate::metadata::yaml::Marker;
use vstd::prelude::*;

verus! {

/// Message contents in more than one language were given, and none of them
/// is in the default language.
#[derive(Clone, Copy, Debug, Default, PartialEq, Eq)]
pub struct MultilingualMessageContentsError {}

/// A plugin name that is meant as a regular expression could not be
/// compiled as one.
#[derive(Clone, Copy, Debug, Default, PartialEq, Eq)]
pub struct RegexError {}

/// The kinds of metadata that are read from YAML.
#[derive(Clone, Copy, Debug, PartialEq, Eq)]
pub enum YamlObjectType {
    File,
    Group,
    Location,
    Message,
    MessageContent,
    PluginCleaningData,
    PluginMetadata,
    Tag,
}

/// The kinds of YAML node that metadata can be read from.
#[derive(Clone, Copy, Debug, PartialEq, Eq)]
pub enum ExpectedType {
    Array,
    ArrayOrString,
    Mapping,
    MappingOrString,
    Number,
    String,
}

/// Why a YAML node could not be read as metadata.
#[derive(Clone, Debug, PartialEq, Eq)]
pub enum MetadataParsingErrorReason {
    /// The node that stands for the metadata is not of the expected kind.
    UnexpectedType(YamlObjectType, ExpectedType),
    /// The value of the given key is not of the expected kind.
    UnexpectedValueType(&'static str, YamlObjectType, ExpectedType),
    /// The map has no value for the given key.
    MissingKey(&'static str, YamlObjectType),
    /// Message contents in several languages lack one in the default
    /// language.
    InvalidMultilingualMessageContents,
    /// The substitution with the given text and index has no placeholder in
    /// a message content.
    MissingPlaceholder(String, usize),
    /// A condition is not written as conditions are.
    InvalidCondition,
    /// A plugin name that is a regular expression is not written as regular
    /// expressions are.
    InvalidRegex,
}

/// A YAML node that could not be read as metadata: where it starts, and
/// why it could not be read.
#[derive(Clone, Debug, PartialEq, Eq)]
pub struct ParseMetadataError {
    pub marker: Marker,
    pub reason: MetadataParsingErrorReason,
}

impl ParseMetadataError {
    /// An error at the given place, for the given reason.
    pub fn new(marker: Marker, reason: MetadataParsingErrorReason) -> (error: ParseMetadataError)
        ensures
            error == (ParseMetadataError { marker, reason }),
    {
        ParseMetadataError { marker, reason }
    }

    /// The error of a node of the wrong kind.
    pub fn unexpected_type(marker: Marker, yaml_type: YamlObjectType, expected: ExpectedType) -> (error:
        ParseMetadataError)
        ensures
            error == (ParseMetadataError {
                marker,
                reason: MetadataParsingErrorReason::UnexpectedType(yaml_type, expected),
            }),
    {
        ParseMetadataError {
            marker,
            reason: MetadataParsingErrorReason::UnexpectedType(yaml_type, expected),
        }
    }

    /// The error of a value of the wrong kind.
    pub fn unexpected_value_type(
        marker: Marker,
        key: &'static str,
        yaml_type: YamlObjectType,
        expected: ExpectedType,
    ) -> (error: ParseMetadataError)
        ensures
            error == (ParseMetadataError {
                marker,
                reason: MetadataParsingErrorReason::UnexpectedValueType(key, yaml_type, expected),
            }),
    {
        ParseMetadataError {
            marker,
            reason: MetadataParsingErrorReason::UnexpectedValueType(key, yaml_type, expected),
        }
    }

    /// The error of a key that is not there.
    pub fn missing_key(marker: Marker, key: &'static str, yaml_type: YamlObjectType) -> (error:
        ParseMetadataError)
        ensures
            error == (ParseMetadataError {
                marker,
                reason: MetadataParsingErrorReason::MissingKey(key, yaml_type),
            }),
    {
        ParseMetadataError { marker, reason: MetadataParsingErrorReason::MissingKey(key, yaml_type) }
    }
}

} // verus!
