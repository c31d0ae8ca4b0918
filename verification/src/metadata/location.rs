//! Places at which a plugin can be found.

use crate::metadata::error::{ExpectedType, MetadataParsingErrorReason, ParseMetadataError, YamlObjectType};
use crate::metadata::yaml::{
    get_required_string_value, spec_get_required_string_value, MarkedYaml, TryFromYaml,
    YamlData,
};
use crate::metadata::yaml_emit::{
    fresh_state, indentation, single_quoted, spec_begin_map, spec_end_block, spec_map_key,
    spec_scalar, EmitYaml, EmitterState, YamlBlock, YamlEmitter,
};
use crate::text::option_string_eq;
use vstd::prelude::*;
use vstd::std_specs::cmp::PartialEqSpecImpl;
use vstd::string::*;

verus! {

/// What a location holds.
#[verifier::ext_equal]
pub struct LocationText {
    pub url: Seq<char>,
    pub name: Option<Seq<char>>,
}

/// Represents a URL at which the parent plugin can be found.
#[derive(Debug, Default, Eq, Ord, PartialOrd, Hash)]
pub struct Location {
    url: String,
    name: Option<String>,
}

impl View for Location {
    type V = LocationText;

    closed spec fn view(&self) -> LocationText {
        LocationText {
            url: self.url@,
            name: match self.name {
                Some(name) => Some(name@),
                None => None,
            },
        }
    }
}

impl Clone for Location {
    fn clone(&self) -> (location: Location)
        ensures
            location@ == self@,
    {
        Location {
            url: self.url.clone(),
            name: match &self.name {
                Some(name) => Some(name.clone()),
                None => None,
            },
        }
    }
}

impl PartialEq for Location {
    fn eq(&self, other: &Location) -> (equal: bool) {
        let equal = self.url == other.url && option_string_eq(&self.name, &other.name);
        proof {
            if equal {
                assert(self@ =~= other@);
            }
        }
        equal
    }
}

impl PartialEqSpecImpl for Location {
    open spec fn obeys_eq_spec() -> bool {
        true
    }

    open spec fn eq_spec(&self, other: &Location) -> bool {
        self@ == other@
    }
}

impl Location {
    /// Construct a [Location] with the given URL.
    #[must_use]
    pub fn new(url: String) -> (location: Location)
        ensures
            location@ == (LocationText { url: url@, name: None }),
    {
        Location { url, name: None }
    }

    /// Set a name for the URL, eg. the page or site name.
    #[must_use]
    pub fn with_name(self, name: String) -> (location: Location)
        ensures
            location@ == (LocationText { name: Some(name@), ..self@ }),
    {
        let mut location = self;
        location.name = Some(name);
        location
    }

    /// Get the URL.
    pub fn url(&self) -> (url: &str)
        ensures
            url@ == self@.url,
    {
        self.url.as_str()
    }

    /// Get the descriptive name of this location.
    pub fn name(&self) -> (name: Option<&str>)
        ensures
            match name {
                Some(text) => self@.name == Some(text@),
                None => self@.name is None,
            },
    {
        match &self.name {
            Some(name) => Some(name.as_str()),
            None => None,
        }
    }
}

/// The state of an emitter after it has written a location: the URL alone
/// where there is no name, else a map with the link and the name.
pub open spec fn location_yaml(state: EmitterState, location: LocationText) -> EmitterState {
    match location.name {
        Some(name) => spec_end_block(
            spec_scalar(
                spec_map_key(
                    spec_scalar(
                        spec_map_key(spec_begin_map(state), "link"@),
                        single_quoted(location.url),
                    ),
                    "name"@,
                ),
                single_quoted(name),
            ),
        ),
        None => spec_scalar(state, single_quoted(location.url)),
    }
}

impl EmitYaml for Location {
    open spec fn spec_is_scalar(&self) -> bool {
        self@.name is None
    }

    open spec fn spec_emit_yaml(&self, state: EmitterState) -> EmitterState {
        location_yaml(state, self@)
    }

    fn is_scalar(&self) -> (scalar: bool) {
        self.name.is_none()
    }

    fn emit_yaml(&self, emitter: &mut YamlEmitter) {
        match &self.name {
            Some(name) => {
                emitter.begin_map();

                emitter.map_key("link");
                emitter.single_quoted_str(self.url.as_str());

                emitter.map_key("name");
                emitter.single_quoted_str(name.as_str());

                emitter.end_map();
            },
            None => {
                emitter.single_quoted_str(self.url.as_str());
            },
        }
    }
}

/// The location that a YAML node stands for: a string is the URL; a map
/// has to have a link and a name; any other node is an error.
pub open spec fn spec_location_from_yaml(value: MarkedYaml) -> Result<
    LocationText,
    ParseMetadataError,
> {
    match value.data {
        YamlData::String(url) => Ok(LocationText { url: url@, name: None }),
        YamlData::Hash(hash) => match spec_get_required_string_value(
            value.start,
            hash@,
            "link",
            YamlObjectType::Location,
        ) {
            Err(error) => Err(error),
            Ok(link) => match spec_get_required_string_value(
                value.start,
                hash@,
                "name",
                YamlObjectType::Location,
            ) {
                Err(error) => Err(error),
                Ok(name) => Ok(LocationText { url: link, name: Some(name) }),
            },
        },
        _ => Err(
            ParseMetadataError {
                marker: value.start,
                reason: MetadataParsingErrorReason::UnexpectedType(
                    YamlObjectType::Location,
                    ExpectedType::MappingOrString,
                ),
            },
        ),
    }
}

impl Location {
    /// Reads a location from a YAML node.
    pub fn try_from(value: &MarkedYaml) -> (result: Result<Location, ParseMetadataError>)
        ensures
            match result {
                Ok(location) => spec_location_from_yaml(*value) == Ok::<
                    LocationText,
                    ParseMetadataError,
                >(location@),
                Err(error) => spec_location_from_yaml(*value) == Err::<
                    LocationText,
                    ParseMetadataError,
                >(error),
            },
    {
        match &value.data {
            YamlData::String(s) => Ok(Location { url: s.clone(), name: None }),
            YamlData::Hash(h) => {
                let link = match get_required_string_value(
                    value.start,
                    h,
                    "link",
                    YamlObjectType::Location,
                ) {
                    Ok(link) => link,
                    Err(error) => {
                        return Err(error);
                    },
                };
                let name = match get_required_string_value(
                    value.start,
                    h,
                    "name",
                    YamlObjectType::Location,
                ) {
                    Ok(name) => name,
                    Err(error) => {
                        return Err(error);
                    },
                };

                Ok(Location { url: String::from_str(link), name: Some(String::from_str(name)) })
            },
            _ => Err(
                ParseMetadataError::unexpected_type(
                    value.start,
                    YamlObjectType::Location,
                    ExpectedType::MappingOrString,
                ),
            ),
        }
    }
}

impl TryFromYaml for Location {
    open spec fn is_read_from(value: MarkedYaml, result: Result<Location, ParseMetadataError>) -> bool {
        match result {
            Ok(location) => spec_location_from_yaml(value) == Ok::<
                LocationText,
                ParseMetadataError,
            >(location@),
            Err(error) => spec_location_from_yaml(value) == Err::<
                LocationText,
                ParseMetadataError,
            >(error),
        }
    }

    fn try_from_yaml(value: &MarkedYaml) -> (result: Result<Location, ParseMetadataError>) {
        Location::try_from(value)
    }
}

/// The YAML text of a location that is written on its own.
pub open spec fn location_text(location: LocationText) -> Seq<char> {
    match location.name {
        Some(name) => "link: "@ + single_quoted(location.url) + "\nname: "@ + single_quoted(name),
        None => single_quoted(location.url),
    }
}

/// A location that is written on its own comes out as its URL in quotes,
/// or as the lines of its link and its name; and the emitter is left
/// outside any block.
pub proof fn law_location_is_written_as_its_lines(location: LocationText)
    ensures
        location_yaml(fresh_state(), location) == (EmitterState {
            text: location_text(location),
            scope: Seq::empty(),
        }),
{
    reveal_strlit("link");
    reveal_strlit("name");
    reveal_strlit("link: ");
    reveal_strlit("\nname: ");
    match location.name {
        Some(name) => {
            let linked = spec_scalar(
                spec_map_key(spec_begin_map(fresh_state()), "link"@),
                single_quoted(location.url),
            );
            assert(linked.text =~= "link: "@ + single_quoted(location.url));
            assert(linked.scope =~= seq![YamlBlock { is_array: false, inline_key: false }]);
            assert(indentation(linked.scope) =~= Seq::<char>::empty());
            let named = spec_scalar(spec_map_key(linked, "name"@), single_quoted(name));
            assert(named.text =~= location_text(location));
            assert(spec_end_block(named).scope =~= Seq::<YamlBlock>::empty());
            assert(location_yaml(fresh_state(), location) =~= (EmitterState {
                text: location_text(location),
                scope: Seq::empty(),
            }));
        },
        None => {
            assert(location_yaml(fresh_state(), location) =~= (EmitterState {
                text: location_text(location),
                scope: Seq::empty(),
            }));
        },
    }
}

} // verus!
