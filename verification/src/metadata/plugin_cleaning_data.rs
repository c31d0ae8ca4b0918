//! What is known of how clean or dirty one version of a plugin is.

use crate::metadata::error::{MetadataParsingErrorReason, ParseMetadataError, YamlObjectType};
use crate::metadata::message::{
    clone_contents, content_texts, contents_eq, parse_message_contents_yaml,
    spec_parse_message_contents_yaml, MessageContent, MessageContentText,
};
use crate::metadata::yaml::{
    get, get_as_hash, get_required_string_value, get_u32_value, spec_get, spec_get_as_hash,
    spec_get_required_string_value, spec_get_u32_value, HashEntry, MarkedYaml, TryFromYaml,
};
use vstd::prelude::*;
use vstd::std_specs::cmp::PartialEqSpecImpl;
use vstd::string::*;

verus! {

/// What cleaning data holds.
#[verifier::ext_equal]
pub struct PluginCleaningDataText {
    pub crc: u32,
    pub itm_count: u32,
    pub deleted_reference_count: u32,
    pub deleted_navmesh_count: u32,
    pub cleaning_utility: Seq<char>,
    pub detail: Seq<MessageContentText>,
}

/// Represents data identifying the plugin under which it is stored as dirty
/// or clean.
#[derive(Debug, Default, Eq)]
pub struct PluginCleaningData {
    crc: u32,
    itm_count: u32,
    deleted_reference_count: u32,
    deleted_navmesh_count: u32,
    cleaning_utility: String,
    detail: Vec<MessageContent>,
}

impl View for PluginCleaningData {
    type V = PluginCleaningDataText;

    closed spec fn view(&self) -> PluginCleaningDataText {
        PluginCleaningDataText {
            crc: self.crc,
            itm_count: self.itm_count,
            deleted_reference_count: self.deleted_reference_count,
            deleted_navmesh_count: self.deleted_navmesh_count,
            cleaning_utility: self.cleaning_utility@,
            detail: content_texts(self.detail@),
        }
    }
}

impl Clone for PluginCleaningData {
    fn clone(&self) -> (data: PluginCleaningData)
        ensures
            data@ == self@,
    {
        PluginCleaningData {
            crc: self.crc,
            itm_count: self.itm_count,
            deleted_reference_count: self.deleted_reference_count,
            deleted_navmesh_count: self.deleted_navmesh_count,
            cleaning_utility: self.cleaning_utility.clone(),
            detail: clone_contents(self.detail.as_slice()),
        }
    }
}

impl PartialEq for PluginCleaningData {
    fn eq(&self, other: &PluginCleaningData) -> (equal: bool) {
        let equal = self.crc == other.crc && self.itm_count == other.itm_count
            && self.deleted_reference_count == other.deleted_reference_count
            && self.deleted_navmesh_count == other.deleted_navmesh_count && self.cleaning_utility
            == other.cleaning_utility && contents_eq(
            self.detail.as_slice(),
            other.detail.as_slice(),
        );
        proof {
            if equal {
                assert(self@ =~= other@);
            }
        }
        equal
    }
}

impl PartialEqSpecImpl for PluginCleaningData {
    open spec fn obeys_eq_spec() -> bool {
        true
    }

    open spec fn eq_spec(&self, other: &PluginCleaningData) -> bool {
        self@ == other@
    }
}

impl PluginCleaningData {
    /// Construct cleaning data for the plugin version with the given CRC,
    /// as found by the given cleaning utility, with all counts zero.
    #[must_use]
    pub fn new(crc: u32, cleaning_utility: String) -> (data: PluginCleaningData)
        ensures
            data@ == (PluginCleaningDataText {
                crc,
                itm_count: 0,
                deleted_reference_count: 0,
                deleted_navmesh_count: 0,
                cleaning_utility: cleaning_utility@,
                detail: Seq::empty(),
            }),
    {
        let data = PluginCleaningData {
            crc,
            itm_count: 0,
            deleted_reference_count: 0,
            deleted_navmesh_count: 0,
            cleaning_utility,
            detail: Vec::new(),
        };
        assert(data@.detail =~= Seq::empty());
        data
    }

    /// Get the CRC that identifies the plugin that the cleaning data is for.
    pub fn crc(&self) -> (crc: u32)
        ensures
            crc == self@.crc,
    {
        self.crc
    }

    /// Get the name of the cleaning utility that was used.
    pub fn cleaning_utility(&self) -> (cleaning_utility: &str)
        ensures
            cleaning_utility@ == self@.cleaning_utility,
    {
        self.cleaning_utility.as_str()
    }
}

impl PluginCleaningData {
    /// Get the number of Identical To Master records found.
    pub fn itm_count(&self) -> (count: u32)
        ensures
            count == self@.itm_count,
    {
        self.itm_count
    }

    /// Get the number of deleted references found.
    pub fn deleted_reference_count(&self) -> (count: u32)
        ensures
            count == self@.deleted_reference_count,
    {
        self.deleted_reference_count
    }

    /// Get the number of deleted navmeshes found.
    pub fn deleted_navmesh_count(&self) -> (count: u32)
        ensures
            count == self@.deleted_navmesh_count,
    {
        self.deleted_navmesh_count
    }

    /// Get the detail message content.
    pub fn detail(&self) -> (detail: &[MessageContent])
        ensures
            content_texts(detail@) == self@.detail,
    {
        self.detail.as_slice()
    }
}

/// The count that a map has for a key: zero if the key is not there.
pub open spec fn spec_count(hash: Seq<HashEntry>, key: &'static str) -> Result<
    u32,
    ParseMetadataError,
> {
    match spec_get_u32_value(hash, key, YamlObjectType::PluginCleaningData) {
        Err(error) => Err(error),
        Ok(Some(count)) => Ok(count),
        Ok(None) => Ok(0u32),
    }
}

/// The detail that a map has under the key `detail`: none if the key is not
/// there.
pub open spec fn spec_cleaning_detail(hash: Seq<HashEntry>) -> Result<
    Seq<MessageContentText>,
    ParseMetadataError,
> {
    match spec_get(hash, "detail"@) {
        Some(node) => spec_parse_message_contents_yaml(
            node,
            "detail",
            YamlObjectType::PluginCleaningData,
        ),
        None => Ok(Seq::empty()),
    }
}

/// The cleaning data that a YAML node stands for: a map with a CRC and the
/// name of a cleaning utility, which have to be there, and maybe the counts
/// of what was found and a detail, which are read in this order.
pub open spec fn spec_cleaning_data_from_yaml(value: MarkedYaml) -> Result<
    PluginCleaningDataText,
    ParseMetadataError,
> {
    match spec_get_as_hash(value, YamlObjectType::PluginCleaningData) {
        Err(error) => Err(error),
        Ok(hash) => match spec_get_u32_value(hash, "crc", YamlObjectType::PluginCleaningData) {
            Err(error) => Err(error),
            Ok(None) => Err(
                ParseMetadataError {
                    marker: value.start,
                    reason: MetadataParsingErrorReason::MissingKey(
                        "crc",
                        YamlObjectType::PluginCleaningData,
                    ),
                },
            ),
            Ok(Some(crc)) => match spec_get_required_string_value(
                value.start,
                hash,
                "util",
                YamlObjectType::PluginCleaningData,
            ) {
                Err(error) => Err(error),
                Ok(cleaning_utility) => match spec_count(hash, "itm") {
                    Err(error) => Err(error),
                    Ok(itm_count) => match spec_count(hash, "udr") {
                        Err(error) => Err(error),
                        Ok(deleted_reference_count) => match spec_count(hash, "nav") {
                            Err(error) => Err(error),
                            Ok(deleted_navmesh_count) => match spec_cleaning_detail(hash) {
                                Err(error) => Err(error),
                                Ok(detail) => Ok(
                                    PluginCleaningDataText {
                                        crc,
                                        itm_count,
                                        deleted_reference_count,
                                        deleted_navmesh_count,
                                        cleaning_utility,
                                        detail,
                                    },
                                ),
                            },
                        },
                    },
                },
            },
        },
    }
}

/// Reads the count that a map has for a key.
fn get_count(hash: &Vec<HashEntry>, key: &'static str) -> (result: Result<u32, ParseMetadataError>)
    ensures
        result == spec_count(hash@, key),
{
    match get_u32_value(hash, key, YamlObjectType::PluginCleaningData) {
        Err(error) => Err(error),
        Ok(Some(count)) => Ok(count),
        Ok(None) => Ok(0),
    }
}

impl TryFromYaml for PluginCleaningData {
    open spec fn is_read_from(
        value: MarkedYaml,
        result: Result<PluginCleaningData, ParseMetadataError>,
    ) -> bool {
        match result {
            Ok(data) => spec_cleaning_data_from_yaml(value) == Ok::<
                PluginCleaningDataText,
                ParseMetadataError,
            >(data@),
            Err(error) => spec_cleaning_data_from_yaml(value) == Err::<
                PluginCleaningDataText,
                ParseMetadataError,
            >(error),
        }
    }

    fn try_from_yaml(value: &MarkedYaml) -> (result: Result<PluginCleaningData, ParseMetadataError>) {
        let hash = match get_as_hash(value, YamlObjectType::PluginCleaningData) {
            Ok(hash) => hash,
            Err(error) => {
                return Err(error);
            },
        };
        let crc = match get_u32_value(hash, "crc", YamlObjectType::PluginCleaningData) {
            Ok(Some(crc)) => crc,
            Ok(None) => {
                return Err(
                    ParseMetadataError::missing_key(
                        value.start,
                        "crc",
                        YamlObjectType::PluginCleaningData,
                    ),
                );
            },
            Err(error) => {
                return Err(error);
            },
        };
        let cleaning_utility = match get_required_string_value(
            value.start,
            hash,
            "util",
            YamlObjectType::PluginCleaningData,
        ) {
            Ok(cleaning_utility) => cleaning_utility,
            Err(error) => {
                return Err(error);
            },
        };
        let itm_count = match get_count(hash, "itm") {
            Ok(count) => count,
            Err(error) => {
                return Err(error);
            },
        };
        let deleted_reference_count = match get_count(hash, "udr") {
            Ok(count) => count,
            Err(error) => {
                return Err(error);
            },
        };
        let deleted_navmesh_count = match get_count(hash, "nav") {
            Ok(count) => count,
            Err(error) => {
                return Err(error);
            },
        };
        let parsed = match get(hash, "detail") {
            Some(n) => parse_message_contents_yaml(n, "detail", YamlObjectType::PluginCleaningData),
            None => {
                let none: Vec<MessageContent> = Vec::new();
                assert(content_texts(none@) =~= Seq::empty());
                Ok(none)
            },
        };
        let detail = match parsed {
            Ok(detail) => detail,
            Err(error) => {
                return Err(error);
            },
        };

        let data = PluginCleaningData {
            crc,
            itm_count,
            deleted_reference_count,
            deleted_navmesh_count,
            cleaning_utility: String::from_str(cleaning_utility),
            detail,
        };
        assert(data@ =~= spec_cleaning_data_from_yaml(*value)->Ok_0);
        Ok(data)
    }
}

} // verus!
