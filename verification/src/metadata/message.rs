//! Messages and their localised contents.

use crate::metadata::error::{
    ExpectedType, MetadataParsingErrorReason, MultilingualMessageContentsError,
    ParseMetadataError, YamlObjectType,
};
use crate::metadata::yaml::{
    get, get_as_hash, get_required_string_value, get_strings_vec_value, parse_condition,
    spec_get, spec_get_as_hash, spec_get_required_string_value, spec_get_strings_vec_value,
    spec_parse_condition, str_texts, value_type_error, MarkedYaml, Marker, TryFromYaml,
    YamlData,
};
use crate::metadata::yaml_emit::{
    single_quoted, spec_begin_array, spec_begin_map, spec_end_block, spec_map_key, spec_scalar,
    EmitYaml, EmitterState, YamlEmitter,
};
use crate::text::{
    chars_of, contains, decimal, find_char, first_index, is_char, last_index,
    lemma_first_index_of_prefix, lemma_first_index_step, option_text, replace, spec_contains,
    spec_decimal, spec_replace, str_eq,
};
use crate::text::option_string_eq;
use vstd::prelude::*;
use vstd::std_specs::cmp::PartialEqSpecImpl;
use vstd::string::*;

verus! {

/// Codes used to indicate the type of a message.
#[derive(Clone, Copy, Debug, Default, Eq, PartialEq, Ord, PartialOrd, Hash)]
pub enum MessageType {
    /// A notification message that is of no significant severity.
    #[default]
    Say,
    /// A warning message, used to indicate that an issue may be present that
    /// the user may wish to act on.
    Warn,
    /// An error message, used to indicate that an issue that requires user
    /// action is present.
    Error,
}

/// What a message content holds.
#[verifier::ext_equal]
pub struct MessageContentText {
    pub text: Seq<char>,
    pub language: Seq<char>,
}

/// Represents a message's localised text content.
#[derive(Debug, Eq, Ord, PartialOrd, Hash)]
pub struct MessageContent {
    text: String,
    language: String,
}

impl View for MessageContent {
    type V = MessageContentText;

    closed spec fn view(&self) -> MessageContentText {
        MessageContentText { text: self.text@, language: self.language@ }
    }
}

/// What a list of message contents holds.
pub open spec fn content_texts(contents: Seq<MessageContent>) -> Seq<MessageContentText> {
    contents.map_values(|content: MessageContent| content@)
}

impl MessageContent {
    /// The code for the default language assumed for message content.
    pub const DEFAULT_LANGUAGE: &'static str = "en";

    /// Construct a [MessageContent] object with the given text in the default
    /// language.
    #[must_use]
    pub fn new(text: String) -> (content: MessageContent)
        ensures
            content@ == (MessageContentText { text: text@, language: "en"@ }),
    {
        MessageContent { text, language: String::from_str("en") }
    }

    /// Set the language code to the given value.
    #[must_use]
    pub fn with_language(self, language: String) -> (content: MessageContent)
        ensures
            content@ == (MessageContentText { language: language@, ..self@ }),
    {
        let mut content = self;
        content.language = language;
        content
    }

    /// Get the message text.
    pub fn text(&self) -> (text: &str)
        ensures
            text@ == self@.text,
    {
        self.text.as_str()
    }

    /// Get the text's language code.
    pub fn language(&self) -> (language: &str)
        ensures
            language@ == self@.language,
    {
        self.language.as_str()
    }

}

impl Clone for MessageContent {
    fn clone(&self) -> (content: MessageContent)
        ensures
            content@ == self@,
    {
        MessageContent { text: self.text.clone(), language: self.language.clone() }
    }
}

impl PartialEq for MessageContent {
    fn eq(&self, other: &MessageContent) -> (equal: bool) {
        let equal = self.text == other.text && self.language == other.language;
        proof {
            if equal {
                assert(self@ =~= other@);
            }
        }
        equal
    }
}

impl PartialEqSpecImpl for MessageContent {
    open spec fn obeys_eq_spec() -> bool {
        true
    }

    open spec fn eq_spec(&self, other: &MessageContent) -> bool {
        self@ == other@
    }
}

/// Whether two lists of message contents hold the same.
pub fn contents_eq(left: &[MessageContent], right: &[MessageContent]) -> (equal: bool)
    ensures
        equal == (content_texts(left@) == content_texts(right@)),
{
    if left.len() != right.len() {
        assert(content_texts(left@).len() != content_texts(right@).len());
        return false;
    }
    let mut index: usize = 0;
    while index < left.len()
        invariant
            index <= left@.len(),
            left@.len() == right@.len(),
            forall|i: int| 0 <= i < index ==> (#[trigger] left@[i])@ == right@[i]@,
        decreases left@.len() - index,
    {
        if !(left[index] == right[index]) {
            assert(content_texts(left@)[index as int] != content_texts(right@)[index as int]);
            return false;
        }
        index = index + 1;
    }
    assert(content_texts(left@) =~= content_texts(right@));
    true
}

/// Copies a list of message contents.
pub fn clone_contents(contents: &[MessageContent]) -> (copies: Vec<MessageContent>)
    ensures
        content_texts(copies@) == content_texts(contents@),
{
    let mut copies: Vec<MessageContent> = Vec::new();
    let mut index: usize = 0;
    while index < contents.len()
        invariant
            index <= contents@.len(),
            copies@.len() == index,
            forall|i: int| 0 <= i < index ==> (#[trigger] copies@[i])@ == contents@[i]@,
        decreases contents@.len() - index,
    {
        copies.push(contents[index].clone());
        index = index + 1;
    }
    assert(content_texts(copies@) =~= content_texts(contents@));
    copies
}

impl Default for MessageContent {
    /// Construct a [MessageContent] object with an empty message string and the
    /// default language.
    fn default() -> (content: MessageContent)
        ensures
            content@ == (MessageContentText { text: Seq::empty(), language: "en"@ }),
    {
        MessageContent { text: String::new(), language: String::from_str("en") }
    }
}

/// The language code of a locale or language code: what stands before its
/// first underscore, if it has one.
pub open spec fn language_code(code: Seq<char>) -> Option<Seq<char>> {
    match first_index(code, is_char('_')) {
        Some(index) => Some(code.take(index)),
        None => None,
    }
}

/// The test that a content passes if its language is exactly `language`.
pub open spec fn in_language(language: Seq<char>) -> spec_fn(MessageContentText) -> bool {
    |content: MessageContentText| content.language == language
}

/// The test that a content passes if its language is close to `language`:
/// where `language` is a locale code, the content is in the language of
/// that locale; where it is a language code, the content is for a locale of
/// that language.
pub open spec fn in_related_language(language: Seq<char>) -> spec_fn(MessageContentText) -> bool {
    |content: MessageContentText|
        match language_code(language) {
            Some(code) => code == content.language,
            None => language_code(content.language) == Some(language),
        }
}

/// The index of the content that is chosen for `language`.
///
/// * Of no contents none is chosen, of one content that one.
/// * Else the first content whose language is exactly `language`.
/// * Else the first content whose language is close to it.
/// * Else the last content in the default language.
/// * Else none.
pub open spec fn spec_select_message_content(
    content: Seq<MessageContentText>,
    language: Seq<char>,
) -> Option<int> {
    if content.len() == 0 {
        None
    } else if content.len() == 1 {
        Some(0)
    } else {
        match first_index(content, in_language(language)) {
            Some(index) => Some(index),
            None => match first_index(content, in_related_language(language)) {
                Some(index) => Some(index),
                None => last_index(content, in_language("en"@)),
            },
        }
    }
}

/// Tells whether the language of a content is close to `language`, whose
/// language code is `code`.
fn is_related_language(content_language: &str, language: &str, code: &Option<String>) -> (related:
    bool)
    requires
        match code {
            Some(text) => language_code(language@) == Some(text@),
            None => language_code(language@) is None,
        },
    ensures
        related == (match language_code(language@) {
            Some(code) => code == content_language@,
            None => language_code(content_language@) == Some(language@),
        }),
{
    match code {
        Some(code) => str_eq(code.as_str(), content_language),
        None => {
            let chars = chars_of(content_language);
            match find_char(chars.as_slice(), '_') {
                Some(index) => {
                    let content_language_code = content_language.substring_char(0, index);
                    assert(content_language_code@ =~= content_language@.take(index as int));
                    str_eq(content_language_code, language)
                },
                None => false,
            }
        },
    }
}

/// Choose a [MessageContent] object from those given in `content` based on the
/// given `language`.
///
/// The locale or language code for the preferred language to select. Codes are
/// of the form `[language code]_[country code]`.
///
/// * If the vector only contains a single element, that element is returned.
/// * If content with a language that exactly matches the given locale or
///   language code is present, that content is returned.
/// * If a locale code is given and there is no exact match but content for that
///   locale's language is present, that content is returned.
/// * If a language code is given and there is no exact match but content for a
///   locale in that language is present, that content is returned.
/// * If no locale or language code matches are found and content in the default
///   language is present, that content is returned.
/// * Otherwise, an empty [Option] is returned.
pub fn select_message_content<'a>(content: &'a [MessageContent], language: &str) -> (selected:
    Option<&'a MessageContent>)
    ensures
        match selected {
            Some(found) => match spec_select_message_content(content_texts(content@), language@) {
                Some(index) => 0 <= index < content@.len() && *found == content@[index],
                None => false,
            },
            None => spec_select_message_content(content_texts(content@), language@) is None,
        },
{
    if content.len() == 0 {
        return None;
    } else if content.len() == 1 {
        return Some(&content[0]);
    }
    let language_chars = chars_of(language);
    let code: Option<String> = match find_char(language_chars.as_slice(), '_') {
        Some(index) => {
            let prefix = language.substring_char(0, index);
            assert(prefix@ =~= language@.take(index as int));
            Some(String::from_str(prefix))
        },
        None => None,
    };

    let ghost texts = content_texts(content@);
    let ghost exact = in_language(language@);
    let ghost related = in_related_language(language@);
    let ghost english_test = in_language("en"@);
    let mut matched: Option<usize> = None;
    let mut english: Option<usize> = None;
    let mut index: usize = 0;

    while index < content.len()
        invariant
            index <= content@.len(),
            texts == content_texts(content@),
            exact == in_language(language@),
            related == in_related_language(language@),
            english_test == in_language("en"@),
            match code {
                Some(text) => language_code(language@) == Some(text@),
                None => language_code(language@) is None,
            },
            first_index(texts.take(index as int), exact) is None,
            match matched {
                Some(at) => at < index && first_index(texts.take(index as int), related) == Some(
                    at as int,
                ),
                None => first_index(texts.take(index as int), related) is None,
            },
            matched is None ==> match english {
                Some(at) => at < index && last_index(texts.take(index as int), english_test)
                    == Some(at as int),
                None => last_index(texts.take(index as int), english_test) is None,
            },
        decreases content@.len() - index,
    {
        let mc = &content[index];
        proof {
            lemma_first_index_step(texts, exact, index as int);
            lemma_first_index_step(texts, related, index as int);
            lemma_first_index_step(texts, english_test, index as int);
            assert(texts[index as int] == mc@);
        }
        if str_eq(mc.language(), language) {
            proof {
                lemma_first_index_of_prefix(texts, exact, index + 1);
            }
            return Some(mc);
        } else if matched.is_none() {
            if is_related_language(mc.language(), language, &code) {
                matched = Some(index);
            }
            if str_eq(mc.language(), "en") {
                english = Some(index);
            }
        }
        index = index + 1;
    }
    proof {
        assert(texts.take(index as int) =~= texts);
    }

    match matched {
        Some(at) => Some(&content[at]),
        None => match english {
            Some(at) => Some(&content[at]),
            None => None,
        },
    }
}

/// Whether message contents can stand together: more than one content
/// needs one in the default language.
pub open spec fn spec_validate_message_contents(contents: Seq<MessageContentText>) -> bool {
    contents.len() > 1 ==> exists|i: int|
        0 <= i < contents.len() && (#[trigger] contents[i]).language == "en"@
}

/// Checks that message contents can stand together.
pub fn validate_message_contents(contents: &[MessageContent]) -> (result: Result<
    (),
    MultilingualMessageContentsError,
>)
    ensures
        result is Ok <==> spec_validate_message_contents(content_texts(contents@)),
{
    if contents.len() > 1 {
        let mut english_string_exists = false;
        let mut index: usize = 0;
        while index < contents.len()
            invariant
                index <= contents@.len(),
                english_string_exists <==> exists|i: int|
                    0 <= i < index && (#[trigger] content_texts(contents@)[i]).language == "en"@,
            decreases contents@.len() - index,
        {
            if str_eq(contents[index].language(), "en") {
                english_string_exists = true;
                assert(content_texts(contents@)[index as int].language == "en"@);
            }
            index = index + 1;
        }

        if !english_string_exists {
            return Err(MultilingualMessageContentsError {  });
        }
    }

    Ok(())
}

/// What a message holds.
#[verifier::ext_equal]
pub struct MessageText {
    pub message_type: MessageType,
    pub content: Seq<MessageContentText>,
    pub condition: Option<Seq<char>>,
}

/// Represents a message with localisable text content.
#[derive(Debug, Default, Eq, Ord, PartialOrd, Hash)]
pub struct Message {
    message_type: MessageType,
    content: Vec<MessageContent>,
    condition: Option<String>,
}

impl View for Message {
    type V = MessageText;

    closed spec fn view(&self) -> MessageText {
        MessageText {
            message_type: self.message_type,
            content: content_texts(self.content@),
            condition: match self.condition {
                Some(condition) => Some(condition@),
                None => None,
            },
        }
    }
}

impl Clone for Message {
    fn clone(&self) -> (message: Message)
        ensures
            message@ == self@,
    {
        Message {
            message_type: self.message_type,
            content: clone_contents(self.content.as_slice()),
            condition: match &self.condition {
                Some(condition) => Some(condition.clone()),
                None => None,
            },
        }
    }
}

impl PartialEq for Message {
    fn eq(&self, other: &Message) -> (equal: bool) {
        let same_type = match (self.message_type, other.message_type) {
            (MessageType::Say, MessageType::Say) => true,
            (MessageType::Warn, MessageType::Warn) => true,
            (MessageType::Error, MessageType::Error) => true,
            _ => false,
        };
        let equal = same_type && contents_eq(self.content.as_slice(), other.content.as_slice())
            && option_string_eq(&self.condition, &other.condition);
        proof {
            if equal {
                assert(self@ =~= other@);
            }
        }
        equal
    }
}

impl PartialEqSpecImpl for Message {
    open spec fn obeys_eq_spec() -> bool {
        true
    }

    open spec fn eq_spec(&self, other: &Message) -> bool {
        self@ == other@
    }
}

impl Message {
    /// Construct a [Message] with the given type and a content string in the
    /// language given by [MessageContent::DEFAULT_LANGUAGE].
    #[must_use]
    pub fn new(message_type: MessageType, content: String) -> (message: Message)
        ensures
            message@ == (MessageText {
                message_type,
                content: seq![MessageContentText { text: content@, language: "en"@ }],
                condition: None,
            }),
    {
        let mut contents: Vec<MessageContent> = Vec::new();
        contents.push(MessageContent { text: content, language: String::from_str("en") });
        let message = Message { message_type, content: contents, condition: None };
        assert(message@.content =~= seq![MessageContentText { text: content@, language: "en"@ }]);
        message
    }

    /// Construct a [Message] with the given type and content. If more than one
    /// [MessageContent] object is given, one must use
    /// the language code given by [MessageContent::DEFAULT_LANGUAGE].
    pub fn multilingual(message_type: MessageType, content: Vec<MessageContent>) -> (result: Result<
        Message,
        MultilingualMessageContentsError,
    >)
        ensures
            result is Ok <==> spec_validate_message_contents(content_texts(content@)),
            result matches Ok(message) ==> message@ == (MessageText {
                message_type,
                content: content_texts(content@),
                condition: None,
            }),
    {
        match validate_message_contents(content.as_slice()) {
            Ok(()) => Ok(Message { message_type, content, condition: None }),
            Err(error) => Err(error),
        }
    }

    /// Set the condition string.
    #[must_use]
    pub fn with_condition(self, condition: String) -> (message: Message)
        ensures
            message@ == (MessageText { condition: Some(condition@), ..self@ }),
    {
        let mut message = self;
        message.condition = Some(condition);
        message
    }

    /// Get the message type.
    pub fn message_type(&self) -> (message_type: MessageType)
        ensures
            message_type == self@.message_type,
    {
        self.message_type
    }

    /// Get the message content.
    pub fn content(&self) -> (content: &[MessageContent])
        ensures
            content_texts(content@) == self@.content,
    {
        self.content.as_slice()
    }

    /// Get the condition string.
    pub fn condition(&self) -> (condition: Option<&str>)
        ensures
            match condition {
                Some(text) => self@.condition == Some(text@),
                None => self@.condition is None,
            },
    {
        match &self.condition {
            Some(condition) => Some(condition.as_str()),
            None => None,
        }
    }
}

/// The message content that a YAML node stands for: a map with a text and
/// a language.
pub open spec fn spec_content_from_yaml(value: MarkedYaml) -> Result<
    MessageContentText,
    ParseMetadataError,
> {
    match spec_get_as_hash(value, YamlObjectType::MessageContent) {
        Err(error) => Err(error),
        Ok(hash) => match spec_get_required_string_value(
            value.start,
            hash,
            "text",
            YamlObjectType::Message,
        ) {
            Err(error) => Err(error),
            Ok(text) => match spec_get_required_string_value(
                value.start,
                hash,
                "lang",
                YamlObjectType::Message,
            ) {
                Err(error) => Err(error),
                Ok(language) => Ok(MessageContentText { text, language }),
            },
        },
    }
}

impl MessageContent {
    /// Reads a message content from a YAML node.
    pub fn try_from(value: &MarkedYaml) -> (result: Result<MessageContent, ParseMetadataError>)
        ensures
            match result {
                Ok(content) => spec_content_from_yaml(*value) == Ok::<
                    MessageContentText,
                    ParseMetadataError,
                >(content@),
                Err(error) => spec_content_from_yaml(*value) == Err::<
                    MessageContentText,
                    ParseMetadataError,
                >(error),
            },
    {
        let hash = match get_as_hash(value, YamlObjectType::MessageContent) {
            Ok(hash) => hash,
            Err(error) => {
                return Err(error);
            },
        };

        let text = match get_required_string_value(
            value.start,
            hash,
            "text",
            YamlObjectType::Message,
        ) {
            Ok(text) => text,
            Err(error) => {
                return Err(error);
            },
        };

        let language = match get_required_string_value(
            value.start,
            hash,
            "lang",
            YamlObjectType::Message,
        ) {
            Ok(language) => language,
            Err(error) => {
                return Err(error);
            },
        };

        Ok(MessageContent { text: String::from_str(text), language: String::from_str(language) })
    }
}

/// The message contents that the first `count` items of a list stand for,
/// or the error of the first item that stands for none.
pub open spec fn spec_contents_from_items(items: Seq<MarkedYaml>, count: nat) -> Result<
    Seq<MessageContentText>,
    ParseMetadataError,
>
    decreases count,
{
    if count == 0 {
        Ok(Seq::empty())
    } else {
        match spec_contents_from_items(items, (count - 1) as nat) {
            Err(error) => Err(error),
            Ok(contents) => match spec_content_from_yaml(items[count - 1]) {
                Err(error) => Err(error),
                Ok(content) => Ok(contents.push(content)),
            },
        }
    }
}

/// An item that stands for no content among the first items is the error
/// of the whole list.
pub proof fn lemma_contents_error(items: Seq<MarkedYaml>, count: nat, total: nat)
    requires
        count <= total,
        spec_contents_from_items(items, count) is Err,
    ensures
        spec_contents_from_items(items, total) == spec_contents_from_items(items, count),
    decreases total,
{
    if count < total {
        lemma_contents_error(items, count, (total - 1) as nat);
    }
}

/// The message contents that a YAML node stands for: a string is one
/// content in the default language; a list holds one content for each
/// item; any other node is an error. Contents that cannot stand together
/// are an error too.
pub open spec fn spec_parse_message_contents_yaml(
    value: MarkedYaml,
    key: &'static str,
    parent_yaml_type: YamlObjectType,
) -> Result<Seq<MessageContentText>, ParseMetadataError> {
    let contents = match value.data {
        YamlData::String(text) => Ok(seq![MessageContentText { text: text@, language: "en"@ }]),
        YamlData::Array(items) => spec_contents_from_items(items@, items@.len()),
        _ => Err(value_type_error(value.start, key, parent_yaml_type, ExpectedType::ArrayOrString)),
    };
    match contents {
        Err(error) => Err(error),
        Ok(contents) => if spec_validate_message_contents(contents) {
            Ok(contents)
        } else {
            Err(
                ParseMetadataError {
                    marker: value.start,
                    reason: MetadataParsingErrorReason::InvalidMultilingualMessageContents,
                },
            )
        },
    }
}

/// Reads message contents from the YAML node that is the value of `key` in
/// metadata of the given kind.
pub fn parse_message_contents_yaml(
    value: &MarkedYaml,
    key: &'static str,
    parent_yaml_type: YamlObjectType,
) -> (result: Result<Vec<MessageContent>, ParseMetadataError>)
    ensures
        match result {
            Ok(contents) => spec_parse_message_contents_yaml(*value, key, parent_yaml_type) == Ok::<
                Seq<MessageContentText>,
                ParseMetadataError,
            >(content_texts(contents@)),
            Err(error) => spec_parse_message_contents_yaml(*value, key, parent_yaml_type) == Err::<
                Seq<MessageContentText>,
                ParseMetadataError,
            >(error),
        },
{
    let mut contents: Vec<MessageContent> = Vec::new();
    match &value.data {
        YamlData::String(s) => {
            contents.push(MessageContent { text: s.clone(), language: String::from_str("en") });
            assert(content_texts(contents@) =~= seq![
                MessageContentText { text: s@, language: "en"@ },
            ]);
        },
        YamlData::Array(a) => {
            let mut index: usize = 0;
            assert(content_texts(contents@) =~= Seq::empty());
            while index < a.len()
                invariant
                    index <= a@.len(),
                    value.data == YamlData::Array(*a),
                    spec_contents_from_items(a@, index as nat) == Ok::<
                        Seq<MessageContentText>,
                        ParseMetadataError,
                    >(content_texts(contents@)),
                decreases a@.len() - index,
            {
                let ghost before = contents@;
                match MessageContent::try_from(&a[index]) {
                    Ok(content) => {
                        contents.push(content);
                        assert(content_texts(contents@) =~= content_texts(before).push(content@));
                    },
                    Err(error) => {
                        proof {
                            lemma_contents_error(a@, (index + 1) as nat, a@.len());
                        }
                        return Err(error);
                    },
                }
                index = index + 1;
            }
        },
        _ => {
            return Err(
                ParseMetadataError::unexpected_value_type(
                    value.start,
                    key,
                    parent_yaml_type,
                    ExpectedType::ArrayOrString,
                ),
            );
        },
    }

    if validate_message_contents(contents.as_slice()).is_err() {
        Err(
            ParseMetadataError::new(
                value.start,
                MetadataParsingErrorReason::InvalidMultilingualMessageContents,
            ),
        )
    } else {
        Ok(contents)
    }
}

/// The kind of message that a written type stands for.
pub open spec fn spec_message_type(written: Seq<char>) -> MessageType {
    if written == "warn"@ {
        MessageType::Warn
    } else if written == "error"@ {
        MessageType::Error
    } else {
        MessageType::Say
    }
}

/// `text` with the first `count` substitutions made, one after the other:
/// the substitution with index `i` takes the place of the number `i`
/// wherever it is written. The error is the index of the first
/// substitution whose number is not written in the text that it meets.
pub open spec fn spec_substitute(text: Seq<char>, subs: Seq<Seq<char>>, count: nat) -> Result<
    Seq<char>,
    int,
>
    decreases count,
{
    if count == 0 {
        Ok(text)
    } else {
        match spec_substitute(text, subs, (count - 1) as nat) {
            Err(index) => Err(index),
            Ok(replaced) => if spec_contains(replaced, spec_decimal((count - 1) as nat)) {
                Ok(spec_replace(replaced, spec_decimal((count - 1) as nat), subs[count - 1]))
            } else {
                Err(count - 1)
            },
        }
    }
}

/// The first `count` contents with all substitutions made in their texts,
/// or the index of the substitution that fails first, in the first content
/// in which one fails.
pub open spec fn spec_substitute_all(
    contents: Seq<MessageContentText>,
    subs: Seq<Seq<char>>,
    count: nat,
) -> Result<Seq<MessageContentText>, int>
    decreases count,
{
    if count == 0 {
        Ok(Seq::empty())
    } else {
        match spec_substitute_all(contents, subs, (count - 1) as nat) {
            Err(index) => Err(index),
            Ok(done) => match spec_substitute(contents[count - 1].text, subs, subs.len()) {
                Err(index) => Err(index),
                Ok(text) => Ok(
                    done.push(MessageContentText { text, language: contents[count - 1].language }),
                ),
            },
        }
    }
}

/// A substitution that fails among the first ones fails for the whole.
pub proof fn lemma_substitute_error(text: Seq<char>, subs: Seq<Seq<char>>, count: nat, total: nat)
    requires
        count <= total,
        spec_substitute(text, subs, count) is Err,
    ensures
        spec_substitute(text, subs, total) == spec_substitute(text, subs, count),
    decreases total,
{
    if count < total {
        lemma_substitute_error(text, subs, count, (total - 1) as nat);
    }
}

/// A content in which a substitution fails among the first ones fails the
/// whole.
pub proof fn lemma_substitute_all_error(
    contents: Seq<MessageContentText>,
    subs: Seq<Seq<char>>,
    count: nat,
    total: nat,
)
    requires
        count <= total,
        spec_substitute_all(contents, subs, count) is Err,
    ensures
        spec_substitute_all(contents, subs, total) == spec_substitute_all(contents, subs, count),
    decreases total,
{
    if count < total {
        lemma_substitute_all_error(contents, subs, count, (total - 1) as nat);
    }
}

/// Makes the substitutions in the text of one content. The error is the
/// index of the substitution that fails.
pub fn substitute(text: &str, subs: &Vec<&str>) -> (result: Result<String, usize>)
    ensures
        match result {
            Ok(replaced) => spec_substitute(text@, str_texts(subs@), subs@.len()) == Ok::<
                Seq<char>,
                int,
            >(replaced@),
            Err(index) => spec_substitute(text@, str_texts(subs@), subs@.len()) == Err::<
                Seq<char>,
                int,
            >(index as int) && index < subs@.len(),
        },
{
    let mut replaced = String::from_str(text);
    let mut index: usize = 0;
    while index < subs.len()
        invariant
            index <= subs@.len(),
            spec_substitute(text@, str_texts(subs@), index as nat) == Ok::<Seq<char>, int>(
                replaced@,
            ),
        decreases subs@.len() - index,
    {
        let placeholder = decimal(index);
        assert(str_texts(subs@)[index as int] == subs@[index as int]@);
        if !contains(replaced.as_str(), placeholder.as_str()) {
            proof {
                lemma_substitute_error(text@, str_texts(subs@), (index + 1) as nat, subs@.len());
            }
            return Err(index);
        }
        replaced = replace(replaced.as_str(), placeholder.as_str(), subs[index]);
        index = index + 1;
    }
    Ok(replaced)
}

/// What a YAML node comes to when it is read as a message.
pub enum MessageOutcome {
    /// The node stands for this message.
    Message(MessageText),
    /// The node cannot be read.
    Invalid(ParseMetadataError),
    /// The substitution with this text and index has no placeholder in a
    /// content.
    MissingPlaceholder(Seq<char>, int),
}

/// Whether an error says that the substitution with the given text and
/// index has no placeholder, in metadata that starts at `marker`.
pub open spec fn is_missing_placeholder(
    error: ParseMetadataError,
    marker: Marker,
    sub: Seq<char>,
    index: int,
) -> bool {
    error.marker == marker && match error.reason {
        MetadataParsingErrorReason::MissingPlaceholder(text, at) => text@ == sub && at == index,
        _ => false,
    }
}

/// What a YAML node comes to when it is read as a message: a map with a
/// type, a content, and maybe substitutions and a condition, which are read
/// in this order.
pub open spec fn spec_message_from_yaml(value: MarkedYaml) -> MessageOutcome {
    match spec_get_as_hash(value, YamlObjectType::Message) {
        Err(error) => MessageOutcome::Invalid(error),
        Ok(hash) => match spec_get_required_string_value(
            value.start,
            hash,
            "type",
            YamlObjectType::Message,
        ) {
            Err(error) => MessageOutcome::Invalid(error),
            Ok(written) => match spec_message_content(value, hash) {
                Err(error) => MessageOutcome::Invalid(error),
                Ok(content) => match spec_get_strings_vec_value(
                    hash,
                    "subs",
                    YamlObjectType::Message,
                ) {
                    Err(error) => MessageOutcome::Invalid(error),
                    Ok(subs) => match spec_substitute_all(content, subs, content.len()) {
                        Err(index) => MessageOutcome::MissingPlaceholder(subs[index], index),
                        Ok(substituted) => match spec_parse_condition(
                            hash,
                            YamlObjectType::Message,
                        ) {
                            Err(error) => MessageOutcome::Invalid(error),
                            Ok(condition) => MessageOutcome::Message(
                                MessageText {
                                    message_type: spec_message_type(written),
                                    content: substituted,
                                    condition,
                                },
                            ),
                        },
                    },
                },
            },
        },
    }
}

/// The contents of a message that is read from a map: the key `content`
/// has to be there.
pub open spec fn spec_message_content(
    value: MarkedYaml,
    hash: Seq<crate::metadata::yaml::HashEntry>,
) -> Result<Seq<MessageContentText>, ParseMetadataError> {
    match spec_get(hash, "content"@) {
        Some(node) => spec_parse_message_contents_yaml(node, "content", YamlObjectType::Message),
        None => Err(
            ParseMetadataError {
                marker: value.start,
                reason: MetadataParsingErrorReason::MissingKey("content", YamlObjectType::Message),
            },
        ),
    }
}

impl Message {
    /// Reads a message from a YAML node.
    pub fn try_from(value: &MarkedYaml) -> (result: Result<Message, ParseMetadataError>)
        ensures
            match result {
                Ok(message) => spec_message_from_yaml(*value) == MessageOutcome::Message(message@),
                Err(error) => match spec_message_from_yaml(*value) {
                    MessageOutcome::Message(_) => false,
                    MessageOutcome::Invalid(expected) => error == expected,
                    MessageOutcome::MissingPlaceholder(sub, index) => is_missing_placeholder(
                        error,
                        value.start,
                        sub,
                        index,
                    ),
                },
            },
    {
        let hash = match get_as_hash(value, YamlObjectType::Message) {
            Ok(hash) => hash,
            Err(error) => {
                return Err(error);
            },
        };

        let message_type = match get_required_string_value(
            value.start,
            hash,
            "type",
            YamlObjectType::Message,
        ) {
            Ok(message_type) => message_type,
            Err(error) => {
                return Err(error);
            },
        };
        let message_type = if str_eq(message_type, "warn") {
            MessageType::Warn
        } else if str_eq(message_type, "error") {
            MessageType::Error
        } else {
            MessageType::Say
        };

        let parsed = match get(hash, "content") {
            Some(n) => parse_message_contents_yaml(n, "content", YamlObjectType::Message),
            None => Err(
                ParseMetadataError::missing_key(value.start, "content", YamlObjectType::Message),
            ),
        };
        let content = match parsed {
            Ok(content) => content,
            Err(error) => {
                return Err(error);
            },
        };

        let subs = match get_strings_vec_value(hash, "subs", YamlObjectType::Message) {
            Ok(subs) => subs,
            Err(error) => {
                return Err(error);
            },
        };

        let ghost texts = content_texts(content@);
        let ghost sub_texts = str_texts(subs@);
        let mut substituted: Vec<MessageContent> = Vec::new();
        let mut index: usize = 0;
        assert(content_texts(substituted@) =~= Seq::empty());
        while index < content.len()
            invariant
                index <= content@.len(),
                texts == content_texts(content@),
                sub_texts == str_texts(subs@),
                spec_get_as_hash(*value, YamlObjectType::Message) == Ok::<
                    Seq<crate::metadata::yaml::HashEntry>,
                    ParseMetadataError,
                >(hash@),
                spec_get_required_string_value(
                    value.start,
                    hash@,
                    "type",
                    YamlObjectType::Message,
                ) is Ok,
                spec_message_content(*value, hash@) == Ok::<
                    Seq<MessageContentText>,
                    ParseMetadataError,
                >(texts),
                spec_get_strings_vec_value(hash@, "subs", YamlObjectType::Message) == Ok::<
                    Seq<Seq<char>>,
                    ParseMetadataError,
                >(sub_texts),
                spec_substitute_all(texts, sub_texts, index as nat) == Ok::<
                    Seq<MessageContentText>,
                    int,
                >(content_texts(substituted@)),
            decreases content@.len() - index,
        {
            let mc = &content[index];
            let ghost before = substituted@;
            assert(texts[index as int] == mc@);
            match substitute(mc.text(), &subs) {
                Ok(text) => {
                    let replaced = MessageContent {
                        text,
                        language: String::from_str(mc.language()),
                    };
                    substituted.push(replaced);
                    assert(content_texts(substituted@) =~= content_texts(before).push(replaced@));
                },
                Err(failed) => {
                    proof {
                        lemma_substitute_all_error(
                            texts,
                            sub_texts,
                            (index + 1) as nat,
                            content@.len(),
                        );
                        assert(sub_texts[failed as int] == subs@[failed as int]@);
                    }
                    return Err(
                        ParseMetadataError::new(
                            value.start,
                            MetadataParsingErrorReason::MissingPlaceholder(
                                String::from_str(subs[failed]),
                                failed,
                            ),
                        ),
                    );
                },
            }
            index = index + 1;
        }

        let condition = match parse_condition(hash, YamlObjectType::Message) {
            Ok(condition) => condition,
            Err(error) => {
                return Err(error);
            },
        };

        let message = Message { message_type, content: substituted, condition };
        assert(message@ =~= (MessageText {
            message_type: spec_message_type(
                spec_get_required_string_value(
                    value.start,
                    hash@,
                    "type",
                    YamlObjectType::Message,
                )->Ok_0,
            ),
            content: content_texts(substituted@),
            condition: option_text(condition),
        }));
        Ok(message)
    }
}

/// Whether `result` is what reading `value` as a message comes to.
pub open spec fn is_message_read_from(value: MarkedYaml, result: Result<Message, ParseMetadataError>) -> bool {
    match result {
        Ok(message) => spec_message_from_yaml(value) == MessageOutcome::Message(message@),
        Err(error) => match spec_message_from_yaml(value) {
            MessageOutcome::Message(_) => false,
            MessageOutcome::Invalid(expected) => error == expected,
            MessageOutcome::MissingPlaceholder(sub, index) => is_missing_placeholder(
                error,
                value.start,
                sub,
                index,
            ),
        },
    }
}

impl TryFromYaml for Message {
    open spec fn is_read_from(value: MarkedYaml, result: Result<Message, ParseMetadataError>) -> bool {
        is_message_read_from(value, result)
    }

    fn try_from_yaml(value: &MarkedYaml) -> (result: Result<Message, ParseMetadataError>) {
        Message::try_from(value)
    }
}

/// The state of an emitter after it has written a message content: a map
/// with the language and the text.
pub open spec fn content_yaml(state: EmitterState, content: MessageContentText) -> EmitterState {
    spec_end_block(
        spec_scalar(
            spec_map_key(
                spec_scalar(spec_map_key(spec_begin_map(state), "lang"@), content.language),
                "text"@,
            ),
            single_quoted(content.text),
        ),
    )
}

impl EmitYaml for MessageContent {
    open spec fn spec_is_scalar(&self) -> bool {
        false
    }

    open spec fn spec_emit_yaml(&self, state: EmitterState) -> EmitterState {
        content_yaml(state, self@)
    }

    fn is_scalar(&self) -> (scalar: bool) {
        false
    }

    fn emit_yaml(&self, emitter: &mut YamlEmitter) {
        emitter.begin_map();

        emitter.map_key("lang");
        emitter.unquoted_str(self.language.as_str());

        emitter.map_key("text");
        emitter.single_quoted_str(self.text.as_str());

        emitter.end_map();
    }
}

/// The state of an emitter after it has written the first `count` of the
/// given contents, one after the other.
pub open spec fn contents_yaml(state: EmitterState, contents: Seq<MessageContentText>, count: nat) -> EmitterState
    decreases count,
{
    if count == 0 {
        state
    } else {
        content_yaml(contents_yaml(state, contents, (count - 1) as nat), contents[count - 1])
    }
}

/// The state of an emitter after it has written message contents under a
/// key: nothing for no contents, the text alone for one content, and a list
/// of the contents for more.
pub open spec fn spec_emit_message_contents(
    state: EmitterState,
    contents: Seq<MessageContentText>,
    key: Seq<char>,
) -> EmitterState {
    if contents.len() == 0 {
        state
    } else if contents.len() == 1 {
        spec_scalar(spec_map_key(state, key), single_quoted(contents[0].text))
    } else {
        spec_end_block(
            contents_yaml(spec_begin_array(spec_map_key(state, key)), contents, contents.len()),
        )
    }
}

/// Writes message contents under a key of the map that the emitter is in.
pub fn emit_message_contents(contents: &[MessageContent], emitter: &mut YamlEmitter, key: &str)
    ensures
        final(emitter)@ == spec_emit_message_contents(old(emitter)@, content_texts(contents@), key@),
{
    if contents.len() == 0 {
    } else if contents.len() == 1 {
        emitter.map_key(key);
        emitter.single_quoted_str(contents[0].text.as_str());
        assert(content_texts(contents@)[0] == contents@[0]@);
    } else {
        emitter.map_key(key);
        emitter.begin_array();
        let ghost begun = emitter@;
        let ghost texts = content_texts(contents@);
        let mut index: usize = 0;
        while index < contents.len()
            invariant
                index <= contents@.len(),
                texts == content_texts(contents@),
                emitter@ == contents_yaml(begun, texts, index as nat),
            decreases contents@.len() - index,
        {
            assert(texts[index as int] == contents@[index as int]@);
            contents[index].emit_yaml(emitter);
            index = index + 1;
        }
        emitter.end_array();
    }
}

} // verus!
