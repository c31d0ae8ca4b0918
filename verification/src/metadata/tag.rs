//! Bash Tag suggestions.

use crate::metadata::error::{
    ExpectedType, MetadataParsingErrorReason, ParseMetadataError, YamlObjectType,
};
use crate::metadata::yaml::{
    get_required_string_value, parse_condition, spec_get_required_string_value,
    spec_parse_condition, MarkedYaml, TryFromYaml, YamlData,
};
use crate::text::{chars_of, option_string_eq};
use vstd::prelude::*;
use vstd::std_specs::cmp::PartialEqSpecImpl;
use vstd::string::*;

verus! {

/// Represents whether a Bash Tag suggestion is for addition or removal.
#[derive(Clone, Copy, Debug, Default, Eq, PartialEq, Ord, PartialOrd, Hash)]
pub enum TagSuggestion {
    #[default]
    Addition,
    Removal,
}

/// What a tag holds.
#[verifier::ext_equal]
pub struct TagText {
    pub name: Seq<char>,
    pub is_addition: bool,
    pub condition: Option<Seq<char>>,
}

/// Represents a Bash Tag suggestion for a plugin.
#[derive(Debug, Default, Eq, Ord, PartialOrd, Hash)]
pub struct Tag {
    name: String,
    suggestion: TagSuggestion,
    condition: Option<String>,
}

impl View for Tag {
    type V = TagText;

    closed spec fn view(&self) -> TagText {
        TagText {
            name: self.name@,
            is_addition: self.suggestion is Addition,
            condition: match self.condition {
                Some(condition) => Some(condition@),
                None => None,
            },
        }
    }
}

impl Clone for Tag {
    fn clone(&self) -> (tag: Tag)
        ensures
            tag@ == self@,
    {
        Tag {
            name: self.name.clone(),
            suggestion: self.suggestion,
            condition: match &self.condition {
                Some(condition) => Some(condition.clone()),
                None => None,
            },
        }
    }
}

impl PartialEq for Tag {
    fn eq(&self, other: &Tag) -> (equal: bool) {
        let same_suggestion = match (self.suggestion, other.suggestion) {
            (TagSuggestion::Addition, TagSuggestion::Addition) => true,
            (TagSuggestion::Removal, TagSuggestion::Removal) => true,
            _ => false,
        };
        let equal = self.name == other.name && same_suggestion && option_string_eq(
            &self.condition,
            &other.condition,
        );
        proof {
            if equal {
                assert(self@ =~= other@);
            }
        }
        equal
    }
}

impl PartialEqSpecImpl for Tag {
    open spec fn obeys_eq_spec() -> bool {
        true
    }

    open spec fn eq_spec(&self, other: &Tag) -> bool {
        self@ == other@
    }
}

impl Tag {
    /// Create a [Tag] suggestion for the given tag name.
    #[must_use]
    pub fn new(name: String, suggestion: TagSuggestion) -> (tag: Tag)
        ensures
            tag@ == (TagText {
                name: name@,
                is_addition: suggestion is Addition,
                condition: None,
            }),
    {
        Tag { name, suggestion, condition: None }
    }

    /// Set the condition string.
    #[must_use]
    pub fn with_condition(self, condition: String) -> (tag: Tag)
        ensures
            tag@ == (TagText { condition: Some(condition@), ..self@ }),
    {
        let mut tag = self;
        tag.condition = Some(condition);
        tag
    }

    /// Get the tag's name.
    pub fn name(&self) -> (name: &str)
        ensures
            name@ == self@.name,
    {
        self.name.as_str()
    }

    /// Get if the tag should be added.
    pub fn is_addition(&self) -> (is_addition: bool)
        ensures
            is_addition == self@.is_addition,
    {
        match self.suggestion {
            TagSuggestion::Addition => true,
            TagSuggestion::Removal => false,
        }
    }

    /// Get the condition string.
    pub fn condition(&self) -> (condition: Option<&str>)
        ensures
            match condition {
                Some(text) => self@.condition == Some(text@),
                None => self@.condition is None,
            },
    {
        match &self.condition {
            Some(condition) => Some(condition.as_str()),
            None => None,
        }
    }
}

/// The name and the kind of suggestion that a written tag stands for: a
/// leading hyphen marks a removal and is no part of the name.
pub open spec fn spec_name_and_suggestion(value: Seq<char>) -> (Seq<char>, TagSuggestion) {
    if value.len() > 0 && value[0] == '-' {
        (value.skip(1), TagSuggestion::Removal)
    } else {
        (value, TagSuggestion::Addition)
    }
}

/// Splits a written tag into its name and the kind of suggestion.
pub fn name_and_suggestion(value: &str) -> (parts: (String, TagSuggestion))
    ensures
        parts.0@ == spec_name_and_suggestion(value@).0,
        parts.1 == spec_name_and_suggestion(value@).1,
{
    let chars = chars_of(value);
    let count: usize = chars.len();
    if count > 0 && chars[0] == '-' {
        let name = value.substring_char(1, count);
        assert(name@ =~= value@.skip(1));
        (String::from_str(name), TagSuggestion::Removal)
    } else {
        (String::from_str(value), TagSuggestion::Addition)
    }
}

/// The tag that a YAML node stands for: a string is the written tag; a map
/// has to have a name, which is the written tag, and may have a
/// condition; any other node is an error.
pub open spec fn spec_tag_from_yaml(value: MarkedYaml) -> Result<TagText, ParseMetadataError> {
    match value.data {
        YamlData::String(written) => Ok(
            TagText {
                name: spec_name_and_suggestion(written@).0,
                is_addition: spec_name_and_suggestion(written@).1 is Addition,
                condition: None,
            },
        ),
        YamlData::Hash(hash) => match spec_get_required_string_value(
            value.start,
            hash@,
            "name",
            YamlObjectType::Tag,
        ) {
            Err(error) => Err(error),
            Ok(written) => match spec_parse_condition(hash@, YamlObjectType::Tag) {
                Err(error) => Err(error),
                Ok(condition) => Ok(
                    TagText {
                        name: spec_name_and_suggestion(written).0,
                        is_addition: spec_name_and_suggestion(written).1 is Addition,
                        condition,
                    },
                ),
            },
        },
        _ => Err(
            ParseMetadataError {
                marker: value.start,
                reason: MetadataParsingErrorReason::UnexpectedType(
                    YamlObjectType::Tag,
                    ExpectedType::MappingOrString,
                ),
            },
        ),
    }
}

impl Tag {
    /// Reads a tag from a YAML node.
    pub fn try_from(value: &MarkedYaml) -> (result: Result<Tag, ParseMetadataError>)
        ensures
            match result {
                Ok(tag) => spec_tag_from_yaml(*value) == Ok::<TagText, ParseMetadataError>(tag@),
                Err(error) => spec_tag_from_yaml(*value) == Err::<TagText, ParseMetadataError>(
                    error,
                ),
            },
    {
        match &value.data {
            YamlData::String(s) => {
                let (name, suggestion) = name_and_suggestion(s.as_str());
                Ok(Tag { name, suggestion, condition: None })
            },
            YamlData::Hash(h) => {
                let name = match get_required_string_value(
                    value.start,
                    h,
                    "name",
                    YamlObjectType::Tag,
                ) {
                    Ok(name) => name,
                    Err(error) => {
                        return Err(error);
                    },
                };

                let condition = match parse_condition(h, YamlObjectType::Tag) {
                    Ok(condition) => condition,
                    Err(error) => {
                        return Err(error);
                    },
                };

                let (name, suggestion) = name_and_suggestion(name);
                Ok(Tag { name, suggestion, condition })
            },
            _ => Err(
                ParseMetadataError::unexpected_type(
                    value.start,
                    YamlObjectType::Tag,
                    ExpectedType::MappingOrString,
                ),
            ),
        }
    }
}

impl TryFromYaml for Tag {
    open spec fn is_read_from(value: MarkedYaml, result: Result<Tag, ParseMetadataError>) -> bool {
        match result {
            Ok(tag) => spec_tag_from_yaml(value) == Ok::<TagText, ParseMetadataError>(tag@),
            Err(error) => spec_tag_from_yaml(value) == Err::<TagText, ParseMetadataError>(error),
        }
    }

    fn try_from_yaml(value: &MarkedYaml) -> (result: Result<Tag, ParseMetadataError>) {
        Tag::try_from(value)
    }
}

} // verus!
