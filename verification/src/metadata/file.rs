//! Files that metadata refers to.

use crate::metadata::error::{
    ExpectedType, MetadataParsingErrorReason, MultilingualMessageContentsError,
    ParseMetadataError, YamlObjectType,
};
use crate::metadata::yaml::{
    get, get_required_string_value, get_string_value, parse_condition, spec_get,
    spec_get_required_string_value, spec_get_string_value, spec_parse_condition, HashEntry,
    MarkedYaml, TryFromYaml, YamlData,
};
use crate::metadata::yaml_emit::{
    single_quoted, spec_begin_map, spec_end_block, spec_map_key, spec_scalar, EmitYaml,
    EmitterState, YamlEmitter,
};
use crate::metadata::message::{
    clone_contents, content_texts, contents_eq, emit_message_contents,
    parse_message_contents_yaml, spec_emit_message_contents, spec_parse_message_contents_yaml,
    spec_validate_message_contents, validate_message_contents, MessageContent,
    MessageContentText,
};
use crate::text::{option_string_eq, option_text};
use vstd::prelude::*;
use vstd::std_specs::cmp::PartialEqSpecImpl;
use vstd::string::*;

verus! {

/// Whether `unicase` holds two texts to be equal but for the case of their
/// letters, by Unicode case folding.
pub uninterp spec fn caseless_eq(left: Seq<char>, right: Seq<char>) -> bool;

/// Compares two texts with `unicase::eq`.
///
/// Trusted: that the result depends on the two texts alone.
#[verifier::external_body]
pub(crate) fn unicase_eq(left: &str, right: &str) -> (equal: bool)
    ensures
        equal == caseless_eq(left@, right@),
{
    unicase::eq(left, right)
}

/// Represents a case-insensitive filename.
#[derive(Debug, Default, Eq)]
pub struct Filename(String);

impl View for Filename {
    type V = Seq<char>;

    closed spec fn view(&self) -> Seq<char> {
        self.0@
    }
}

impl Filename {
    /// Construct a Filename using the given string.
    #[must_use]
    pub fn new(s: String) -> (filename: Filename)
        ensures
            filename@ == s@,
    {
        Filename(s)
    }

    /// Get this Filename as a string.
    pub fn as_str(&self) -> (text: &str)
        ensures
            text@ == self@,
    {
        self.0.as_str()
    }
}

impl Clone for Filename {
    fn clone(&self) -> (filename: Filename)
        ensures
            filename@ == self@,
    {
        Filename(self.0.clone())
    }
}

impl PartialEq for Filename {
    fn eq(&self, other: &Filename) -> (equal: bool) {
        unicase_eq(self.0.as_str(), other.0.as_str())
    }
}

impl PartialEqSpecImpl for Filename {
    open spec fn obeys_eq_spec() -> bool {
        true
    }

    open spec fn eq_spec(&self, other: &Filename) -> bool {
        caseless_eq(self@, other@)
    }
}

/// What a file holds.
#[verifier::ext_equal]
pub struct FileText {
    pub name: Seq<char>,
    pub display_name: Option<Seq<char>>,
    pub detail: Seq<MessageContentText>,
    pub condition: Option<Seq<char>>,
}

/// Represents a file in a game's Data folder, including files in
/// subdirectories.
#[derive(Debug, Default, Eq)]
pub struct File {
    name: Filename,
    display_name: Option<String>,
    detail: Vec<MessageContent>,
    condition: Option<String>,
}

impl View for File {
    type V = FileText;

    closed spec fn view(&self) -> FileText {
        FileText {
            name: self.name@,
            display_name: option_text(self.display_name),
            detail: content_texts(self.detail@),
            condition: option_text(self.condition),
        }
    }
}

/// Whether two files are equal: their names are, but for the case of
/// letters, and everything else is the same.
pub open spec fn files_equal(left: FileText, right: FileText) -> bool {
    &&& caseless_eq(left.name, right.name)
    &&& left.display_name == right.display_name
    &&& left.detail == right.detail
    &&& left.condition == right.condition
}

impl Clone for File {
    fn clone(&self) -> (file: File)
        ensures
            file@ == self@,
    {
        File {
            name: self.name.clone(),
            display_name: match &self.display_name {
                Some(display_name) => Some(display_name.clone()),
                None => None,
            },
            detail: clone_contents(self.detail.as_slice()),
            condition: match &self.condition {
                Some(condition) => Some(condition.clone()),
                None => None,
            },
        }
    }
}

impl PartialEq for File {
    fn eq(&self, other: &File) -> (equal: bool) {
        self.name == other.name && option_string_eq(&self.display_name, &other.display_name)
            && contents_eq(self.detail.as_slice(), other.detail.as_slice()) && option_string_eq(
            &self.condition,
            &other.condition,
        )
    }
}

impl PartialEqSpecImpl for File {
    open spec fn obeys_eq_spec() -> bool {
        true
    }

    open spec fn eq_spec(&self, other: &File) -> bool {
        files_equal(self@, other@)
    }
}

impl File {
    /// Construct a [File] with the given name. This can also be a relative path.
    #[must_use]
    pub fn new(name: String) -> (file: File)
        ensures
            file@ == (FileText {
                name: name@,
                display_name: None,
                detail: Seq::empty(),
                condition: None,
            }),
    {
        let file = File {
            name: Filename::new(name),
            display_name: None,
            detail: Vec::new(),
            condition: None,
        };
        assert(file@.detail =~= Seq::empty());
        file
    }

    /// Set the name to be displayed for the file in messages, formatted using
    /// CommonMark.
    #[must_use]
    pub fn with_display_name(self, display_name: String) -> (file: File)
        ensures
            file@ == (FileText { display_name: Some(display_name@), ..self@ }),
    {
        let mut file = self;
        file.set_display_name(display_name);
        file
    }

    /// Set the condition string.
    #[must_use]
    pub fn with_condition(self, condition: String) -> (file: File)
        ensures
            file@ == (FileText { condition: Some(condition@), ..self@ }),
    {
        let mut file = self;
        file.set_condition(condition);
        file
    }

    /// Set the detail message content, which may be appended to any messages
    /// generated for this file. If multilingual, one language must be
    /// [MessageContent::DEFAULT_LANGUAGE].
    pub fn with_detail(self, detail: Vec<MessageContent>) -> (result: Result<
        File,
        MultilingualMessageContentsError,
    >)
        ensures
            result is Ok <==> spec_validate_message_contents(content_texts(detail@)),
            result matches Ok(file) ==> file@ == (FileText {
                detail: content_texts(detail@),
                ..self@
            }),
    {
        let mut file = self;
        match file.set_detail(detail) {
            Ok(()) => Ok(file),
            Err(error) => Err(error),
        }
    }

    /// Gets the name of the file (which may actually be a path).
    pub fn name(&self) -> (name: &Filename)
        ensures
            name@ == self@.name,
    {
        &self.name
    }

    /// Get the display name of the file.
    pub fn display_name(&self) -> (display_name: Option<&str>)
        ensures
            match display_name {
                Some(text) => self@.display_name == Some(text@),
                None => self@.display_name is None,
            },
    {
        match &self.display_name {
            Some(display_name) => Some(display_name.as_str()),
            None => None,
        }
    }

    /// Set the name to be displayed for the file in messages, formatted using
    /// CommonMark.
    pub fn set_display_name(&mut self, display_name: String)
        ensures
            final(self)@ == (FileText { display_name: Some(display_name@), ..old(self)@ }),
    {
        self.display_name = Some(display_name);
    }

    /// Get the detail message content of the file.
    ///
    /// If this file causes an error message to be displayed, the detail message
    /// content should be appended to that message, as it provides more detail
    /// about the error (e.g. suggestions for how to resolve it).
    pub fn detail(&self) -> (detail: &[MessageContent])
        ensures
            content_texts(detail@) == self@.detail,
    {
        self.detail.as_slice()
    }

    /// Set the detail message content, which may be appended to any messages
    /// generated for this file. If multilingual, one language must be
    /// [MessageContent::DEFAULT_LANGUAGE]. A detail that is refused leaves
    /// the file as it is.
    pub fn set_detail(&mut self, detail: Vec<MessageContent>) -> (result: Result<
        (),
        MultilingualMessageContentsError,
    >)
        ensures
            result is Ok <==> spec_validate_message_contents(content_texts(detail@)),
            result is Ok ==> final(self)@ == (FileText {
                detail: content_texts(detail@),
                ..old(self)@
            }),
            result is Err ==> final(self)@ == old(self)@,
    {
        match validate_message_contents(detail.as_slice()) {
            Ok(()) => {
                self.detail = detail;
                Ok(())
            },
            Err(error) => Err(error),
        }
    }

    /// Get the condition string.
    pub fn condition(&self) -> (condition: Option<&str>)
        ensures
            match condition {
                Some(text) => self@.condition == Some(text@),
                None => self@.condition is None,
            },
    {
        match &self.condition {
            Some(condition) => Some(condition.as_str()),
            None => None,
        }
    }

    /// Set the condition string.
    pub fn set_condition(&mut self, condition: String)
        ensures
            final(self)@ == (FileText { condition: Some(condition@), ..old(self)@ }),
    {
        self.condition = Some(condition);
    }
}

/// The detail that a map has under the key `detail`: none if the key is not
/// there.
pub open spec fn spec_file_detail(hash: Seq<HashEntry>) -> Result<
    Seq<MessageContentText>,
    ParseMetadataError,
> {
    match spec_get(hash, "detail"@) {
        Some(node) => spec_parse_message_contents_yaml(
            node,
            "detail",
            YamlObjectType::PluginCleaningData,
        ),
        None => Ok(Seq::empty()),
    }
}

/// The file that a YAML node stands for: a string is the name; a map has
/// to have a name, and may have a display name, a detail and a condition,
/// which are read in this order; any other node is an error.
pub open spec fn spec_file_from_yaml(value: MarkedYaml) -> Result<FileText, ParseMetadataError> {
    match value.data {
        YamlData::String(name) => Ok(
            FileText { name: name@, display_name: None, detail: Seq::empty(), condition: None },
        ),
        YamlData::Hash(hash) => match spec_get_required_string_value(
            value.start,
            hash@,
            "name",
            YamlObjectType::File,
        ) {
            Err(error) => Err(error),
            Ok(name) => match spec_get_string_value(hash@, "display", YamlObjectType::File) {
                Err(error) => Err(error),
                Ok(display_name) => match spec_file_detail(hash@) {
                    Err(error) => Err(error),
                    Ok(detail) => match spec_parse_condition(hash@, YamlObjectType::File) {
                        Err(error) => Err(error),
                        Ok(condition) => Ok(
                            FileText {
                                name,
                                display_name: match display_name {
                                    Some(found) => Some(found.1),
                                    None => None,
                                },
                                detail,
                                condition,
                            },
                        ),
                    },
                },
            },
        },
        _ => Err(
            ParseMetadataError {
                marker: value.start,
                reason: MetadataParsingErrorReason::UnexpectedType(
                    YamlObjectType::File,
                    ExpectedType::MappingOrString,
                ),
            },
        ),
    }
}

impl TryFromYaml for File {
    open spec fn is_read_from(value: MarkedYaml, result: Result<File, ParseMetadataError>) -> bool {
        match result {
            Ok(file) => spec_file_from_yaml(value) == Ok::<FileText, ParseMetadataError>(file@),
            Err(error) => spec_file_from_yaml(value) == Err::<FileText, ParseMetadataError>(error),
        }
    }

    fn try_from_yaml(value: &MarkedYaml) -> (result: Result<File, ParseMetadataError>) {
        match &value.data {
            YamlData::String(s) => {
                let file = File {
                    name: Filename::new(s.clone()),
                    display_name: None,
                    detail: Vec::new(),
                    condition: None,
                };
                assert(file@.detail =~= Seq::empty());
                Ok(file)
            },
            YamlData::Hash(h) => {
                let name = match get_required_string_value(
                    value.start,
                    h,
                    "name",
                    YamlObjectType::File,
                ) {
                    Ok(name) => name,
                    Err(error) => {
                        return Err(error);
                    },
                };

                let display_name = match get_string_value(h, "display", YamlObjectType::File) {
                    Ok(display_name) => display_name,
                    Err(error) => {
                        return Err(error);
                    },
                };

                let parsed = match get(h, "detail") {
                    Some(n) => parse_message_contents_yaml(
                        n,
                        "detail",
                        YamlObjectType::PluginCleaningData,
                    ),
                    None => {
                        let none: Vec<MessageContent> = Vec::new();
                        assert(content_texts(none@) =~= Seq::empty());
                        Ok(none)
                    },
                };
                let detail = match parsed {
                    Ok(detail) => detail,
                    Err(error) => {
                        return Err(error);
                    },
                };

                let condition = match parse_condition(h, YamlObjectType::File) {
                    Ok(condition) => condition,
                    Err(error) => {
                        return Err(error);
                    },
                };

                let file = File {
                    name: Filename::new(String::from_str(name)),
                    display_name: match display_name {
                        Some(found) => Some(String::from_str(found.1)),
                        None => None,
                    },
                    detail,
                    condition,
                };
                assert(file@ =~= spec_file_from_yaml(*value)->Ok_0);
                Ok(file)
            },
            _ => Err(
                ParseMetadataError::unexpected_type(
                    value.start,
                    YamlObjectType::File,
                    ExpectedType::MappingOrString,
                ),
            ),
        }
    }
}

/// The state of an emitter after it has written a file: the name alone
/// where nothing else is set, else a map with the name, the display name,
/// the condition and the detail, as far as they are set.
pub open spec fn file_yaml(state: EmitterState, file: FileText) -> EmitterState {
    if file.condition is None && file.detail.len() == 0 && file.display_name is None {
        spec_scalar(state, single_quoted(file.name))
    } else {
        let named = spec_scalar(
            spec_map_key(spec_begin_map(state), "name"@),
            single_quoted(file.name),
        );
        let displayed = match file.display_name {
            Some(display_name) => spec_scalar(
                spec_map_key(named, "display"@),
                single_quoted(display_name),
            ),
            None => named,
        };
        let conditioned = match file.condition {
            Some(condition) => spec_scalar(
                spec_map_key(displayed, "condition"@),
                single_quoted(condition),
            ),
            None => displayed,
        };
        spec_end_block(spec_emit_message_contents(conditioned, file.detail, "detail"@))
    }
}

impl EmitYaml for File {
    open spec fn spec_is_scalar(&self) -> bool {
        self@.condition is None && self@.detail.len() == 0 && self@.display_name is None
    }

    open spec fn spec_emit_yaml(&self, state: EmitterState) -> EmitterState {
        file_yaml(state, self@)
    }

    fn is_scalar(&self) -> (scalar: bool) {
        self.condition.is_none() && self.detail.len() == 0 && self.display_name.is_none()
    }

    fn emit_yaml(&self, emitter: &mut YamlEmitter) {
        if self.is_scalar() {
            emitter.single_quoted_str(self.name.as_str());
        } else {
            emitter.begin_map();

            emitter.map_key("name");
            emitter.single_quoted_str(self.name.as_str());

            match &self.display_name {
                Some(display_name) => {
                    emitter.map_key("display");
                    emitter.single_quoted_str(display_name.as_str());
                },
                None => {},
            }

            match &self.condition {
                Some(condition) => {
                    emitter.map_key("condition");
                    emitter.single_quoted_str(condition.as_str());
                },
                None => {},
            }

            emit_message_contents(self.detail.as_slice(), emitter, "detail");

            emitter.end_map();
        }
    }
}

} // verus!
