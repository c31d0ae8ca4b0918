use libloot::metadata::error::{
    ExpectedType, MetadataParsingErrorReason, MultilingualMessageContentsError, YamlObjectType,
};
use libloot::metadata::message::{
    parse_message_contents_yaml, select_message_content, substitute, validate_message_contents,
    Message, MessageContent, MessageType,
};
use libloot::metadata::tag::{name_and_suggestion, Tag, TagSuggestion};
use libloot::metadata::yaml::{
    checked_condition, parse_condition, HashEntry, MarkedYaml, Marker, YamlData,
};
use libloot::text::{
    chars_of, contains, decimal, eq_ignore_ascii_case, find_char, replace,
    starts_with_ignore_ascii_case, str_eq, to_ascii_lowercase,
};
use saphyr::LoadableYamlNode;

fn convert(node: &saphyr::MarkedYaml) -> MarkedYaml {
    let start = Marker {
        index: node.span.start.index(),
        line: node.span.start.line(),
        column: node.span.start.col(),
    };
    let data = match &node.data {
        saphyr::YamlData::Value(saphyr::Scalar::String(s)) => YamlData::String(s.to_string()),
        saphyr::YamlData::Value(saphyr::Scalar::Integer(i)) => YamlData::Integer(*i),
        saphyr::YamlData::Sequence(items) => YamlData::Array(items.iter().map(convert).collect()),
        saphyr::YamlData::Mapping(entries) => YamlData::Hash(
            entries
                .iter()
                .map(|(key, value)| HashEntry {
                    key: convert(key),
                    value: convert(value),
                })
                .collect(),
        ),
        _ => YamlData::Other,
    };
    MarkedYaml { start, data }
}

fn parse(text: &str) -> MarkedYaml {
    let documents = saphyr::MarkedYaml::load_from_str(text).unwrap();
    convert(&documents[0])
}

fn content(text: &str, language: &str) -> MessageContent {
    MessageContent::new(text.into()).with_language(language.into())
}

#[test]
fn message_content_is_in_english_by_default() {
    let content = MessageContent::new("text".into());

    assert_eq!("text", content.text());
    assert_eq!("en", content.language());
    assert_eq!("en", MessageContent::DEFAULT_LANGUAGE);
    assert_eq!("", MessageContent::default().text());
    assert_eq!("en", MessageContent::default().language());
    assert_eq!("fr", content.with_language("fr".into()).language());
}

#[test]
fn select_message_content_returns_none_for_no_content() {
    assert_eq!(None, select_message_content(&[], "en"));
}

#[test]
fn select_message_content_returns_the_only_content_in_any_language() {
    let contents = [content("a", "de")];

    assert_eq!(Some(&contents[0]), select_message_content(&contents, "fr"));
}

#[test]
fn select_message_content_prefers_an_exact_match() {
    let contents = [
        content("a", "en"),
        content("b", "pt"),
        content("c", "pt_BR"),
        content("d", "pt_PT"),
    ];

    assert_eq!(Some(&contents[2]), select_message_content(&contents, "pt_BR"));
    assert_eq!(Some(&contents[3]), select_message_content(&contents, "pt_PT"));
    assert_eq!(Some(&contents[1]), select_message_content(&contents, "pt"));
}

#[test]
fn select_message_content_falls_back_to_the_language_of_a_locale() {
    let contents = [content("a", "en"), content("b", "pt"), content("c", "pt_PT")];

    assert_eq!(Some(&contents[1]), select_message_content(&contents, "pt_BR"));
}

#[test]
fn select_message_content_falls_back_to_a_locale_of_the_language() {
    let contents = [
        content("a", "en"),
        content("b", "pt_PT"),
        content("c", "pt_BR"),
    ];

    assert_eq!(Some(&contents[1]), select_message_content(&contents, "pt"));
}

#[test]
fn select_message_content_falls_back_to_the_last_english_content() {
    let contents = [
        content("a", "en"),
        content("b", "de"),
        content("c", "en"),
        content("d", "fr"),
    ];

    assert_eq!(Some(&contents[2]), select_message_content(&contents, "pt"));
    assert_eq!(Some(&contents[2]), select_message_content(&contents, "pt_BR"));
    assert_eq!(Some(&contents[0]), select_message_content(&contents, "en"));
}

#[test]
fn select_message_content_returns_none_without_match_or_english() {
    let contents = [content("b", "de"), content("d", "fr")];

    assert_eq!(None, select_message_content(&contents, "pt"));
    assert_eq!(None, select_message_content(&contents, "frFR_x"));
    assert_eq!(Some(&contents[1]), select_message_content(&contents, "fr_FR"));
    // The language of a locale is what stands before its first underscore.
    assert_eq!(Some(&contents[1]), select_message_content(&contents, "fr_FR_x"));
}

#[test]
fn validate_message_contents_needs_english_among_several() {
    assert_eq!(Ok(()), validate_message_contents(&[]));
    assert_eq!(Ok(()), validate_message_contents(&[content("a", "de")]));
    assert_eq!(
        Ok(()),
        validate_message_contents(&[content("a", "de"), content("b", "en")])
    );
    assert_eq!(
        Err(MultilingualMessageContentsError {}),
        validate_message_contents(&[content("a", "de"), content("b", "fr")])
    );
    assert_eq!(
        Err(MultilingualMessageContentsError {}),
        validate_message_contents(&[content("a", "en_GB"), content("b", "EN")])
    );
}

#[test]
fn message_new_holds_one_english_content() {
    let message = Message::new(MessageType::Warn, "text".into());

    assert_eq!(MessageType::Warn, message.message_type());
    assert_eq!(&[content("text", "en")], message.content());
    assert_eq!(None, message.condition());
    assert_eq!(
        Some("c"),
        message.clone().with_condition("c".into()).condition()
    );
    assert_eq!(MessageType::Say, MessageType::default());
    assert_ne!(message, Message::new(MessageType::Error, "text".into()));
    assert_eq!(message, message.clone());
}

#[test]
fn message_multilingual_validates_the_contents() {
    assert!(Message::multilingual(MessageType::Say, vec![content("a", "de"), content("b", "fr")])
        .is_err());
    let message =
        Message::multilingual(MessageType::Error, vec![content("a", "de"), content("b", "en")])
            .unwrap();

    assert_eq!(MessageType::Error, message.message_type());
    assert_eq!(&[content("a", "de"), content("b", "en")], message.content());
    assert_eq!(None, message.condition());
}

#[test]
fn message_try_from_reads_type_content_and_condition() {
    let message = Message::try_from(&parse(
        "{type: warn, content: text, condition: 'file(\"Foo.esp\")'}",
    ))
    .unwrap();

    assert_eq!(
        Message::new(MessageType::Warn, "text".into()).with_condition("file(\"Foo.esp\")".into()),
        message
    );
    assert_eq!(
        MessageType::Error,
        Message::try_from(&parse("{type: error, content: a}"))
            .unwrap()
            .message_type()
    );
    for written in ["say", "Warn", "anything"] {
        assert_eq!(
            MessageType::Say,
            Message::try_from(&parse(&format!("{{type: {written}, content: a}}")))
                .unwrap()
                .message_type()
        );
    }
}

#[test]
fn message_try_from_reports_what_is_missing_or_wrong() {
    let reason = |text: &str| Message::try_from(&parse(text)).unwrap_err().reason;

    assert_eq!(
        MetadataParsingErrorReason::UnexpectedType(YamlObjectType::Message, ExpectedType::Mapping),
        reason("text")
    );
    assert_eq!(
        MetadataParsingErrorReason::MissingKey("type", YamlObjectType::Message),
        reason("{content: a}")
    );
    assert_eq!(
        MetadataParsingErrorReason::MissingKey("content", YamlObjectType::Message),
        reason("{type: say}")
    );
    assert_eq!(
        MetadataParsingErrorReason::UnexpectedValueType(
            "content",
            YamlObjectType::Message,
            ExpectedType::ArrayOrString
        ),
        reason("{type: say, content: {a: b}}")
    );
    assert_eq!(
        MetadataParsingErrorReason::InvalidMultilingualMessageContents,
        reason("{type: say, content: [{text: a, lang: de}, {text: b, lang: fr}]}")
    );
    assert_eq!(
        MetadataParsingErrorReason::MissingKey("lang", YamlObjectType::Message),
        reason("{type: say, content: [{text: a}]}")
    );
    assert_eq!(
        MetadataParsingErrorReason::UnexpectedType(
            YamlObjectType::MessageContent,
            ExpectedType::Mapping
        ),
        reason("{type: say, content: [a]}")
    );
    assert_eq!(
        MetadataParsingErrorReason::UnexpectedValueType(
            "subs",
            YamlObjectType::Message,
            ExpectedType::Array
        ),
        reason("{type: say, content: a, subs: b}")
    );
    assert_eq!(
        MetadataParsingErrorReason::InvalidCondition,
        reason("{type: say, content: a, condition: invalid}")
    );
}

#[test]
fn message_try_from_makes_the_substitutions_in_every_content() {
    let message = Message::try_from(&parse(
        "{type: say, content: [{text: 'a 0 b 1 0', lang: en}, {text: '1-0', lang: fr}], subs: [x, y]}",
    ))
    .unwrap();

    assert_eq!(
        &[content("a x b y x", "en"), content("y-x", "fr")],
        message.content()
    );
}

#[test]
fn message_try_from_needs_a_placeholder_for_every_substitution() {
    let error = Message::try_from(&parse(
        "{type: say, content: [{text: 'a 0 1', lang: en}, {text: '0', lang: fr}], subs: [x, y]}",
    ))
    .unwrap_err();

    assert_eq!(
        MetadataParsingErrorReason::MissingPlaceholder("y".into(), 1),
        error.reason
    );
    // A substitution makes the text that the next one reads.
    assert_eq!(
        Ok("11".to_string()),
        substitute("0", &vec!["1", "11"])
    );
    assert_eq!(Err(1), substitute("0", &vec!["x", "y"]));
    assert_eq!(Ok("a".to_string()), substitute("a", &vec![]));
}

#[test]
fn parse_message_contents_yaml_reads_a_string_or_a_list() {
    assert_eq!(
        Ok(vec![content("text", "en")]),
        parse_message_contents_yaml(&parse("text"), "detail", YamlObjectType::File)
    );
    assert_eq!(
        Ok(vec![content("a", "fr")]),
        parse_message_contents_yaml(
            &parse("[{lang: fr, text: a}]"),
            "detail",
            YamlObjectType::File
        )
    );
    assert_eq!(
        Ok(vec![]),
        parse_message_contents_yaml(&parse("[]"), "detail", YamlObjectType::File)
    );
    assert_eq!(
        MetadataParsingErrorReason::UnexpectedValueType(
            "detail",
            YamlObjectType::File,
            ExpectedType::ArrayOrString
        ),
        parse_message_contents_yaml(&parse("{a: b}"), "detail", YamlObjectType::File)
            .unwrap_err()
            .reason
    );
}

#[test]
fn conditions_are_checked_by_the_condition_interpreter() {
    let condition_of = |text: &str| match parse(text).data {
        YamlData::Hash(hash) => parse_condition(&hash, YamlObjectType::Tag),
        _ => unreachable!(),
    };
    assert_eq!(
        Ok(Some("file(\"Foo.esp\")".to_string())),
        condition_of("{condition: 'file(\"Foo.esp\")'}")
    );
    assert_eq!(
        Ok(Some("file(\"Foo.esp\") and not active(\"Bar.esp\")".to_string())),
        condition_of("{condition: 'file(\"Foo.esp\") and not active(\"Bar.esp\")'}")
    );
    assert_eq!(Ok(None), condition_of("{name: a}"));
    assert_eq!(
        MetadataParsingErrorReason::InvalidCondition,
        condition_of("{condition: invalid}").unwrap_err().reason
    );
    assert_eq!(
        MetadataParsingErrorReason::InvalidCondition,
        condition_of("{condition: 'file(\"Foo.esp\") trailing'}")
            .unwrap_err()
            .reason
    );
    assert_eq!(
        MetadataParsingErrorReason::UnexpectedValueType(
            "condition",
            YamlObjectType::Tag,
            ExpectedType::String
        ),
        condition_of("{condition: [a]}").unwrap_err().reason
    );

    let marker = Marker {
        index: 3,
        line: 1,
        column: 3,
    };
    assert_eq!(Ok("c".to_string()), checked_condition(marker, "c", true));
    let error = checked_condition(marker, "c", false).unwrap_err();
    assert_eq!(marker, error.marker);
    assert_eq!(MetadataParsingErrorReason::InvalidCondition, error.reason);
}

#[test]
fn tag_name_and_suggestion_reads_a_leading_hyphen() {
    assert_eq!(("Relev".to_string(), TagSuggestion::Addition), name_and_suggestion("Relev"));
    assert_eq!(("Relev".to_string(), TagSuggestion::Removal), name_and_suggestion("-Relev"));
    assert_eq!(("-Relev".to_string(), TagSuggestion::Removal), name_and_suggestion("--Relev"));
    assert_eq!((String::new(), TagSuggestion::Addition), name_and_suggestion(""));
    assert_eq!((String::new(), TagSuggestion::Removal), name_and_suggestion("-"));
    assert_eq!(("a-b".to_string(), TagSuggestion::Addition), name_and_suggestion("a-b"));
}

#[test]
fn tag_holds_name_suggestion_and_condition() {
    let tag = Tag::new("Relev".into(), TagSuggestion::Removal);

    assert_eq!("Relev", tag.name());
    assert!(!tag.is_addition());
    assert_eq!(None, tag.condition());
    assert!(Tag::new("Relev".into(), TagSuggestion::Addition).is_addition());
    assert_eq!(Some("c"), tag.clone().with_condition("c".into()).condition());
    assert_ne!(tag, Tag::new("Relev".into(), TagSuggestion::Addition));
    assert_ne!(tag, Tag::new("relev".into(), TagSuggestion::Removal));
    assert_eq!(tag, tag.clone());
    assert_eq!(TagSuggestion::Addition, TagSuggestion::default());
}

#[test]
fn tag_try_from_reads_a_string_or_a_map() {
    assert_eq!(
        Ok(Tag::new("Relev".into(), TagSuggestion::Removal)),
        Tag::try_from(&parse("-Relev"))
    );
    assert_eq!(
        Ok(Tag::new("Relev".into(), TagSuggestion::Addition)
            .with_condition("file(\"Foo.esp\")".into())),
        Tag::try_from(&parse("{name: Relev, condition: 'file(\"Foo.esp\")'}"))
    );
    assert_eq!(
        Ok(Tag::new("Delev".into(), TagSuggestion::Removal)),
        Tag::try_from(&parse("{name: -Delev}"))
    );
    let reason = |text: &str| Tag::try_from(&parse(text)).unwrap_err().reason;
    assert_eq!(
        MetadataParsingErrorReason::UnexpectedType(
            YamlObjectType::Tag,
            ExpectedType::MappingOrString
        ),
        reason("[a]")
    );
    assert_eq!(
        MetadataParsingErrorReason::MissingKey("name", YamlObjectType::Tag),
        reason("{condition: 'file(\"Foo.esp\")'}")
    );
    assert_eq!(
        MetadataParsingErrorReason::InvalidCondition,
        reason("{name: Relev, condition: invalid}")
    );
}

#[test]
fn text_helpers_compare_and_search() {
    assert_eq!(vec!['n', '\u{00C1}'], chars_of("n\u{00C1}"));
    assert_eq!('a', to_ascii_lowercase('A'));
    assert_eq!('z', to_ascii_lowercase('Z'));
    assert_eq!('[', to_ascii_lowercase('['));
    assert_eq!('@', to_ascii_lowercase('@'));
    assert_eq!('\u{00C1}', to_ascii_lowercase('\u{00C1}'));
    assert!(eq_ignore_ascii_case(&['a', 'B'], &['A', 'b']));
    assert!(!eq_ignore_ascii_case(&['a'], &['a', 'b']));
    assert!(!eq_ignore_ascii_case(&['\u{00C1}'], &['\u{00E1}']));
    assert!(starts_with_ignore_ascii_case(&['F', 'o', 'o'], &['f', 'O']));
    assert!(starts_with_ignore_ascii_case(&['F'], &[]));
    assert!(!starts_with_ignore_ascii_case(&['F'], &['f', 'o']));
    assert!(str_eq("ab", "ab"));
    assert!(!str_eq("ab", "aB"));
    assert!(!str_eq("ab", "abc"));
    assert_eq!(Some(2), find_char(&['a', 'b', '_', '_'], '_'));
    assert_eq!(None, find_char(&['a'], '_'));
}

#[test]
fn text_helpers_replace_and_write_numbers() {
    assert!(contains("abc", "bc"));
    assert!(contains("abc", ""));
    assert!(contains("", ""));
    assert!(!contains("abc", "cb"));
    assert!(!contains("ab", "abc"));
    assert_eq!("xbxb", replace("abab", "a", "x"));
    assert_eq!("ba", replace("aaa", "aa", "b"));
    assert_eq!("abab", replace("abab", "", "x"));
    assert_eq!("abab", replace("abab", "ababa", "x"));
    assert_eq!("", replace("abab", "ab", ""));
    assert_eq!("a\u{00C1}b", replace("a0b", "0", "\u{00C1}"));
    assert_eq!("0", decimal(0));
    assert_eq!("7", decimal(7));
    assert_eq!("10", decimal(10));
    assert_eq!("1234567890", decimal(1234567890));
    assert_eq!(usize::MAX.to_string(), decimal(usize::MAX));
}
