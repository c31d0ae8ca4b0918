//! YAML nodes as the library reads them, and the reading of strings and
//! lists of strings from the maps among them.
//!
//! A node holds what the rules look at: the kind of the node, the text of a
//! string, the items of a list, the entries of a map, and where in the text
//! the node starts. Numbers, booleans and whatever else a YAML text can
//! hold are all one kind here, since nothing is read from them.

use crate::metadata::error::{
    ExpectedType, MetadataParsingErrorReason, ParseMetadataError, YamlObjectType,
};
use crate::text::str_eq;
use vstd::prelude::*;
use vstd::string::*;

verus! {

/// A place in a YAML text.
#[derive(Clone, Copy, Debug, Default, PartialEq, Eq)]
pub struct Marker {
    pub index: usize,
    pub line: usize,
    pub column: usize,
}

/// An entry of a YAML map.
#[derive(Debug, PartialEq, Eq)]
pub struct HashEntry {
    pub key: MarkedYaml,
    pub value: MarkedYaml,
}

/// What a YAML node holds.
#[derive(Debug, PartialEq, Eq)]
pub enum YamlData {
    String(String),
    Array(Vec<MarkedYaml>),
    Hash(Vec<HashEntry>),
    Integer(i64),
    /// A node of another kind.
    Other,
}

/// A YAML node, and where it starts.
#[derive(Debug, PartialEq, Eq)]
pub struct MarkedYaml {
    pub start: Marker,
    pub data: YamlData,
}

/// The value of the first entry whose key is the string `key`.
pub open spec fn spec_get(hash: Seq<HashEntry>, key: Seq<char>) -> Option<MarkedYaml>
    decreases hash.len(),
{
    if hash.len() == 0 {
        None
    } else if hash.first().key.data matches YamlData::String(text) && text@ == key {
        Some(hash.first().value)
    } else {
        spec_get(hash.drop_first(), key)
    }
}

/// Looks up the value of a key in a map.
pub fn get<'a>(hash: &'a Vec<HashEntry>, key: &str) -> (found: Option<&'a MarkedYaml>)
    ensures
        match found {
            Some(value) => spec_get(hash@, key@) == Some(*value),
            None => spec_get(hash@, key@) is None,
        },
{
    let mut index: usize = 0;
    assert(hash@.skip(0) =~= hash@);
    while index < hash.len()
        invariant
            index <= hash@.len(),
            spec_get(hash@, key@) == spec_get(hash@.skip(index as int), key@),
        decreases hash@.len() - index,
    {
        let entry = &hash[index];
        proof {
            let rest = hash@.skip(index as int);
            assert(rest.first() == hash@[index as int]);
            assert(rest.drop_first() =~= hash@.skip(index + 1));
        }
        match &entry.key.data {
            YamlData::String(text) => {
                if str_eq(text.as_str(), key) {
                    return Some(&entry.value);
                }
            },
            _ => {},
        }
        index = index + 1;
    }
    None
}

/// The entries of a node that is a map, or the error of a node that is
/// none.
pub open spec fn spec_get_as_hash(value: MarkedYaml, yaml_type: YamlObjectType) -> Result<
    Seq<HashEntry>,
    ParseMetadataError,
> {
    match value.data {
        YamlData::Hash(hash) => Ok(hash@),
        _ => Err(
            ParseMetadataError {
                marker: value.start,
                reason: crate::metadata::error::MetadataParsingErrorReason::UnexpectedType(
                    yaml_type,
                    ExpectedType::Mapping,
                ),
            },
        ),
    }
}

/// Reads a node as a map.
pub fn get_as_hash<'a>(value: &'a MarkedYaml, yaml_type: YamlObjectType) -> (result: Result<
    &'a Vec<HashEntry>,
    ParseMetadataError,
>)
    ensures
        match result {
            Ok(hash) => spec_get_as_hash(*value, yaml_type) == Ok::<
                Seq<HashEntry>,
                ParseMetadataError,
            >(hash@),
            Err(error) => spec_get_as_hash(*value, yaml_type) == Err::<
                Seq<HashEntry>,
                ParseMetadataError,
            >(error),
        },
{
    match &value.data {
        YamlData::Hash(hash) => Ok(hash),
        _ => Err(ParseMetadataError::unexpected_type(value.start, yaml_type, ExpectedType::Mapping)),
    }
}

/// The text of the string that a map has for a key, with the place of the
/// string: nothing if the key is not there, an error if its value is no
/// string.
pub open spec fn spec_get_string_value(
    hash: Seq<HashEntry>,
    key: &'static str,
    yaml_type: YamlObjectType,
) -> Result<Option<(Marker, Seq<char>)>, ParseMetadataError> {
    match spec_get(hash, key@) {
        Some(value) => match value.data {
            YamlData::String(text) => Ok(Some((value.start, text@))),
            _ => Err(
                ParseMetadataError {
                    marker: value.start,
                    reason: crate::metadata::error::MetadataParsingErrorReason::UnexpectedValueType(
                        key,
                        yaml_type,
                        ExpectedType::String,
                    ),
                },
            ),
        },
        None => Ok(None),
    }
}

/// Reads the string that a map has for a key, if the key is there.
pub fn get_string_value<'a>(
    hash: &'a Vec<HashEntry>,
    key: &'static str,
    yaml_type: YamlObjectType,
) -> (result: Result<Option<(Marker, &'a str)>, ParseMetadataError>)
    ensures
        match result {
            Ok(Some(found)) => spec_get_string_value(hash@, key, yaml_type) == Ok::<
                Option<(Marker, Seq<char>)>,
                ParseMetadataError,
            >(Some((found.0, found.1@))),
            Ok(None) => spec_get_string_value(hash@, key, yaml_type) == Ok::<
                Option<(Marker, Seq<char>)>,
                ParseMetadataError,
            >(None),
            Err(error) => spec_get_string_value(hash@, key, yaml_type) == Err::<
                Option<(Marker, Seq<char>)>,
                ParseMetadataError,
            >(error),
        },
{
    match get(hash, key) {
        Some(value) => match &value.data {
            YamlData::String(text) => Ok(Some((value.start, text.as_str()))),
            _ => Err(
                ParseMetadataError::unexpected_value_type(
                    value.start,
                    key,
                    yaml_type,
                    ExpectedType::String,
                ),
            ),
        },
        None => Ok(None),
    }
}

/// The text of the string that a map has for a key, which has to be there.
pub open spec fn spec_get_required_string_value(
    marker: Marker,
    hash: Seq<HashEntry>,
    key: &'static str,
    yaml_type: YamlObjectType,
) -> Result<Seq<char>, ParseMetadataError> {
    match spec_get_string_value(hash, key, yaml_type) {
        Ok(Some(found)) => Ok(found.1),
        Ok(None) => Err(
            ParseMetadataError {
                marker,
                reason: crate::metadata::error::MetadataParsingErrorReason::MissingKey(
                    key,
                    yaml_type,
                ),
            },
        ),
        Err(error) => Err(error),
    }
}

/// Reads the string that a map has for a key. `marker` is the place of the
/// map, for the error of a key that is not there.
pub fn get_required_string_value<'a>(
    marker: Marker,
    hash: &'a Vec<HashEntry>,
    key: &'static str,
    yaml_type: YamlObjectType,
) -> (result: Result<&'a str, ParseMetadataError>)
    ensures
        match result {
            Ok(text) => spec_get_required_string_value(marker, hash@, key, yaml_type) == Ok::<
                Seq<char>,
                ParseMetadataError,
            >(text@),
            Err(error) => spec_get_required_string_value(marker, hash@, key, yaml_type) == Err::<
                Seq<char>,
                ParseMetadataError,
            >(error),
        },
{
    match get_string_value(hash, key, yaml_type) {
        Ok(Some(found)) => Ok(found.1),
        Ok(None) => Err(ParseMetadataError::missing_key(marker, key, yaml_type)),
        Err(error) => Err(error),
    }
}

/// The error of the value of a key that is of the wrong kind.
pub open spec fn value_type_error(
    marker: Marker,
    key: &'static str,
    yaml_type: YamlObjectType,
    expected: ExpectedType,
) -> ParseMetadataError {
    ParseMetadataError {
        marker,
        reason: crate::metadata::error::MetadataParsingErrorReason::UnexpectedValueType(
            key,
            yaml_type,
            expected,
        ),
    }
}

/// The texts of the first `count` items of a list, which all have to be
/// strings: the error is that of the first item that is none.
pub open spec fn spec_strings(
    items: Seq<MarkedYaml>,
    count: nat,
    key: &'static str,
    yaml_type: YamlObjectType,
) -> Result<Seq<Seq<char>>, ParseMetadataError>
    decreases count,
{
    if count == 0 {
        Ok(Seq::empty())
    } else {
        match spec_strings(items, (count - 1) as nat, key, yaml_type) {
            Err(error) => Err(error),
            Ok(texts) => match items[count - 1].data {
                YamlData::String(text) => Ok(texts.push(text@)),
                _ => Err(
                    value_type_error(items[count - 1].start, key, yaml_type, ExpectedType::String),
                ),
            },
        }
    }
}

/// The items of the list that a map has for a key: none if the key is not
/// there, an error if its value is no list.
pub open spec fn spec_get_as_slice(hash: Seq<HashEntry>, key: &'static str, yaml_type: YamlObjectType) -> Result<
    Seq<MarkedYaml>,
    ParseMetadataError,
> {
    match spec_get(hash, key@) {
        Some(value) => match value.data {
            YamlData::Array(items) => Ok(items@),
            _ => Err(value_type_error(value.start, key, yaml_type, ExpectedType::Array)),
        },
        None => Ok(Seq::empty()),
    }
}

/// Reads the list that a map has for a key.
pub fn get_as_slice<'a>(hash: &'a Vec<HashEntry>, key: &'static str, yaml_type: YamlObjectType) -> (result:
    Result<Option<&'a Vec<MarkedYaml>>, ParseMetadataError>)
    ensures
        match result {
            Ok(Some(items)) => spec_get_as_slice(hash@, key, yaml_type) == Ok::<
                Seq<MarkedYaml>,
                ParseMetadataError,
            >(items@),
            Ok(None) => spec_get_as_slice(hash@, key, yaml_type) == Ok::<
                Seq<MarkedYaml>,
                ParseMetadataError,
            >(Seq::empty()),
            Err(error) => spec_get_as_slice(hash@, key, yaml_type) == Err::<
                Seq<MarkedYaml>,
                ParseMetadataError,
            >(error),
        },
{
    match get(hash, key) {
        Some(value) => match &value.data {
            YamlData::Array(items) => Ok(Some(items)),
            _ => Err(
                ParseMetadataError::unexpected_value_type(
                    value.start,
                    key,
                    yaml_type,
                    ExpectedType::Array,
                ),
            ),
        },
        None => Ok(None),
    }
}

/// The texts of the list of strings that a map has for a key: none if the
/// key is not there.
pub open spec fn spec_get_strings_vec_value(
    hash: Seq<HashEntry>,
    key: &'static str,
    yaml_type: YamlObjectType,
) -> Result<Seq<Seq<char>>, ParseMetadataError> {
    match spec_get_as_slice(hash, key, yaml_type) {
        Ok(items) => spec_strings(items, items.len(), key, yaml_type),
        Err(error) => Err(error),
    }
}

/// The texts of a list of strings.
pub open spec fn str_texts(strings: Seq<&str>) -> Seq<Seq<char>> {
    strings.map_values(|string: &str| string@)
}

/// Reads the list of strings that a map has for a key.
pub fn get_strings_vec_value<'a>(
    hash: &'a Vec<HashEntry>,
    key: &'static str,
    yaml_type: YamlObjectType,
) -> (result: Result<Vec<&'a str>, ParseMetadataError>)
    ensures
        match result {
            Ok(strings) => spec_get_strings_vec_value(hash@, key, yaml_type) == Ok::<
                Seq<Seq<char>>,
                ParseMetadataError,
            >(str_texts(strings@)),
            Err(error) => spec_get_strings_vec_value(hash@, key, yaml_type) == Err::<
                Seq<Seq<char>>,
                ParseMetadataError,
            >(error),
        },
{
    let mut strings: Vec<&'a str> = Vec::new();
    let items = match get_as_slice(hash, key, yaml_type) {
        Ok(Some(items)) => items,
        Ok(None) => {
            assert(str_texts(strings@) =~= Seq::empty());
            return Ok(strings);
        },
        Err(error) => {
            return Err(error);
        },
    };
    let mut index: usize = 0;
    assert(str_texts(strings@) =~= Seq::empty());
    while index < items.len()
        invariant
            index <= items@.len(),
            spec_get_as_slice(hash@, key, yaml_type) == Ok::<Seq<MarkedYaml>, ParseMetadataError>(
                items@,
            ),
            spec_strings(items@, index as nat, key, yaml_type) == Ok::<
                Seq<Seq<char>>,
                ParseMetadataError,
            >(str_texts(strings@)),
        decreases items@.len() - index,
    {
        let ghost before = strings@;
        match &items[index].data {
            YamlData::String(text) => {
                strings.push(text.as_str());
                assert(str_texts(strings@) =~= str_texts(before).push(text@));
            },
            _ => {
                proof {
                    lemma_strings_error(items@, (index + 1) as nat, items@.len(), key, yaml_type);
                }
                return Err(
                    ParseMetadataError::unexpected_value_type(
                        items[index].start,
                        key,
                        yaml_type,
                        ExpectedType::String,
                    ),
                );
            },
        }
        index = index + 1;
    }
    Ok(strings)
}

/// An item that is no string among the first items is the error of the
/// whole list.
pub proof fn lemma_strings_error(
    items: Seq<MarkedYaml>,
    count: nat,
    total: nat,
    key: &'static str,
    yaml_type: YamlObjectType,
)
    requires
        count <= total,
        spec_strings(items, count, key, yaml_type) is Err,
    ensures
        spec_strings(items, total, key, yaml_type) == spec_strings(items, count, key, yaml_type),
    decreases total,
{
    if count < total {
        lemma_strings_error(items, count, (total - 1) as nat, key, yaml_type);
    }
}

/// Whether `loot_condition_interpreter` reads the given text as a
/// condition.
pub uninterp spec fn condition_is_valid(condition: Seq<char>) -> bool;

/// Asks `loot_condition_interpreter::Expression::from_str` whether a text
/// is written as conditions are.
///
/// Trusted: that the text alone decides it.
#[verifier::external_body]
pub(crate) fn is_valid_condition(condition: &str) -> (valid: bool)
    ensures
        valid == condition_is_valid(condition@),
{
    match <loot_condition_interpreter::Expression as std::str::FromStr>::from_str(condition) {
        Ok(_) => true,
        Err(_) => false,
    }
}

/// The condition that stands at `marker`, given whether it is written as
/// conditions are, or the error of one that is not.
pub fn checked_condition(marker: Marker, condition: &str, valid: bool) -> (result: Result<
    String,
    ParseMetadataError,
>)
    ensures
        match result {
            Ok(text) => valid && text@ == condition@,
            Err(error) => !valid && error == (ParseMetadataError {
                marker,
                reason: MetadataParsingErrorReason::InvalidCondition,
            }),
        },
{
    if valid {
        Ok(String::from_str(condition))
    } else {
        Err(ParseMetadataError::new(marker, MetadataParsingErrorReason::InvalidCondition))
    }
}

/// The condition that a map has under the key `condition`: none if the key
/// is not there, an error if its value is no string or is not written as
/// conditions are.
pub open spec fn spec_parse_condition(hash: Seq<HashEntry>, yaml_type: YamlObjectType) -> Result<
    Option<Seq<char>>,
    ParseMetadataError,
> {
    match spec_get_string_value(hash, "condition", yaml_type) {
        Err(error) => Err(error),
        Ok(None) => Ok(None),
        Ok(Some(found)) => if condition_is_valid(found.1) {
            Ok(Some(found.1))
        } else {
            Err(
                ParseMetadataError {
                    marker: found.0,
                    reason: MetadataParsingErrorReason::InvalidCondition,
                },
            )
        },
    }
}

/// Reads the condition that a map has.
pub fn parse_condition(hash: &Vec<HashEntry>, yaml_type: YamlObjectType) -> (result: Result<
    Option<String>,
    ParseMetadataError,
>)
    ensures
        match result {
            Ok(Some(text)) => spec_parse_condition(hash@, yaml_type) == Ok::<
                Option<Seq<char>>,
                ParseMetadataError,
            >(Some(text@)),
            Ok(None) => spec_parse_condition(hash@, yaml_type) == Ok::<
                Option<Seq<char>>,
                ParseMetadataError,
            >(None),
            Err(error) => spec_parse_condition(hash@, yaml_type) == Err::<
                Option<Seq<char>>,
                ParseMetadataError,
            >(error),
        },
{
    match get_string_value(hash, "condition", yaml_type) {
        Err(error) => Err(error),
        Ok(None) => Ok(None),
        Ok(Some(found)) => {
            let valid = is_valid_condition(found.1);
            match checked_condition(found.0, found.1, valid) {
                Ok(condition) => Ok(Some(condition)),
                Err(error) => Err(error),
            }
        },
    }
}

/// The number that a map has for a key, which has to fit in 32 bits
/// without a sign: nothing if the key is not there, an error if its value
/// is no such number.
pub open spec fn spec_get_u32_value(hash: Seq<HashEntry>, key: &'static str, yaml_type: YamlObjectType) -> Result<
    Option<u32>,
    ParseMetadataError,
> {
    match spec_get(hash, key@) {
        Some(value) => match value.data {
            YamlData::Integer(number) => if 0 <= number <= u32::MAX {
                Ok(Some(number as u32))
            } else {
                Err(value_type_error(value.start, key, yaml_type, ExpectedType::Number))
            },
            _ => Err(value_type_error(value.start, key, yaml_type, ExpectedType::Number)),
        },
        None => Ok(None),
    }
}

/// Reads the number that a map has for a key, if the key is there.
pub fn get_u32_value(hash: &Vec<HashEntry>, key: &'static str, yaml_type: YamlObjectType) -> (result:
    Result<Option<u32>, ParseMetadataError>)
    ensures
        result == spec_get_u32_value(hash@, key, yaml_type),
{
    match get(hash, key) {
        Some(value) => match &value.data {
            YamlData::Integer(number) => {
                if 0 <= *number && *number <= 0xFFFF_FFFF {
                    Ok(Some(*number as u32))
                } else {
                    Err(
                        ParseMetadataError::unexpected_value_type(
                            value.start,
                            key,
                            yaml_type,
                            ExpectedType::Number,
                        ),
                    )
                }
            },
            _ => Err(
                ParseMetadataError::unexpected_value_type(
                    value.start,
                    key,
                    yaml_type,
                    ExpectedType::Number,
                ),
            ),
        },
        None => Ok(None),
    }
}

/// Metadata that can be read from a YAML node.
pub trait TryFromYaml: Sized {
    /// Whether `result` is what reading `value` comes to.
    spec fn is_read_from(value: MarkedYaml, result: Result<Self, ParseMetadataError>) -> bool;

    /// Reads the metadata from a YAML node.
    fn try_from_yaml(value: &MarkedYaml) -> (result: Result<Self, ParseMetadataError>)
        ensures
            Self::is_read_from(*value, result),
    ;
}

/// Whether a YAML node can be read as metadata of the given kind.
pub open spec fn is_readable<T: TryFromYaml>(item: MarkedYaml) -> bool {
    exists|read: T| T::is_read_from(item, Ok::<T, ParseMetadataError>(read))
}

/// Whether each of the first `count` items can be read.
pub open spec fn are_readable<T: TryFromYaml>(items: Seq<MarkedYaml>, count: int) -> bool {
    forall|i: int| 0 <= i < count ==> is_readable::<T>(#[trigger] items[i])
}

/// Whether `result` is what reading each of `items` in turn comes to: all
/// that was read, or the error of an item that cannot be read, where all
/// items before it can.
pub open spec fn are_read_from<T: TryFromYaml>(
    items: Seq<MarkedYaml>,
    result: Result<Seq<T>, ParseMetadataError>,
) -> bool {
    match result {
        Ok(read) => read.len() == items.len() && forall|i: int|
            0 <= i < items.len() ==> T::is_read_from(
                #[trigger] items[i],
                Ok::<T, ParseMetadataError>(read[i]),
            ),
        Err(error) => exists|failed: int|
            0 <= failed < items.len() && T::is_read_from(
                #[trigger] items[failed],
                Err::<T, ParseMetadataError>(error),
            ) && are_readable::<T>(items, failed),
    }
}

/// Reads the metadata that the items of the list under a key stand for.
pub fn get_vec<T: TryFromYaml>(hash: &Vec<HashEntry>, key: &'static str, yaml_type: YamlObjectType) -> (result:
    Result<Vec<T>, ParseMetadataError>)
    ensures
        match spec_get_as_slice(hash@, key, yaml_type) {
            Ok(items) => are_read_from(
                items,
                match result {
                    Ok(read) => Ok::<Seq<T>, ParseMetadataError>(read@),
                    Err(error) => Err::<Seq<T>, ParseMetadataError>(error),
                },
            ),
            Err(error) => result matches Err(found) && found == error,
        },
{
    let mut read: Vec<T> = Vec::new();
    let items = match get_as_slice(hash, key, yaml_type) {
        Ok(Some(items)) => items,
        Ok(None) => {
            return Ok(read);
        },
        Err(error) => {
            return Err(error);
        },
    };
    let mut index: usize = 0;
    while index < items.len()
        invariant
            index <= items@.len(),
            read@.len() == index,
            spec_get_as_slice(hash@, key, yaml_type) == Ok::<Seq<MarkedYaml>, ParseMetadataError>(
                items@,
            ),
            forall|i: int|
                0 <= i < index ==> T::is_read_from(
                    #[trigger] items@[i],
                    Ok::<T, ParseMetadataError>(read@[i]),
                ),
        decreases items@.len() - index,
    {
        match T::try_from_yaml(&items[index]) {
            Ok(element) => {
                read.push(element);
            },
            Err(error) => {
                proof {
                    assert(T::is_read_from(
                        items@[index as int],
                        Err::<T, ParseMetadataError>(error),
                    ));
                    assert forall|i: int| 0 <= i < index implies is_readable::<T>(
                        #[trigger] items@[i],
                    ) by {
                        assert(T::is_read_from(items@[i], Ok::<T, ParseMetadataError>(read@[i])));
                    }
                    assert(are_readable::<T>(items@, index as int));
                    assert(are_read_from(items@, Err::<Seq<T>, ParseMetadataError>(error)));
                }
                return Err(error);
            },
        }
        index = index + 1;
    }
    Ok(read)
}

} // verus!
