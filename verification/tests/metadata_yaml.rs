use libloot::metadata::error::{
    ExpectedType, MetadataParsingErrorReason, ParseMetadataError, YamlObjectType,
};
use libloot::metadata::group::Group;
use libloot::metadata::location::Location;
use libloot::metadata::yaml::{
    get, get_as_hash, get_as_slice, get_required_string_value, get_string_value,
    get_strings_vec_value, HashEntry, MarkedYaml, Marker, YamlData,
};
use saphyr::LoadableYamlNode;

fn convert(node: &saphyr::MarkedYaml) -> MarkedYaml {
    let start = Marker {
        index: node.span.start.index(),
        line: node.span.start.line(),
        column: node.span.start.col(),
    };
    let data = match &node.data {
        saphyr::YamlData::Value(saphyr::Scalar::String(s)) => YamlData::String(s.to_string()),
        saphyr::YamlData::Sequence(items) => YamlData::Array(items.iter().map(convert).collect()),
        saphyr::YamlData::Mapping(entries) => YamlData::Hash(
            entries
                .iter()
                .map(|(key, value)| HashEntry {
                    key: convert(key),
                    value: convert(value),
                })
                .collect(),
        ),
        _ => YamlData::Other,
    };
    MarkedYaml { start, data }
}

fn parse(text: &str) -> MarkedYaml {
    let documents = saphyr::MarkedYaml::load_from_str(text).unwrap();
    convert(&documents[0])
}

#[test]
fn group_should_error_if_given_a_list() {
    let yaml = parse("[0, 1, 2]");

    assert!(Group::try_from(&yaml).is_err());
    assert_eq!(
        Err(MetadataParsingErrorReason::UnexpectedType(
            YamlObjectType::Group,
            ExpectedType::Mapping
        )),
        Group::try_from(&yaml).map_err(|e| e.reason)
    );
}

#[test]
fn group_should_error_if_name_is_missing() {
    let yaml = parse("{description: text}");

    assert!(Group::try_from(&yaml).is_err());
    assert_eq!(
        Err(ParseMetadataError {
            marker: yaml.start,
            reason: MetadataParsingErrorReason::MissingKey("name", YamlObjectType::Group),
        }),
        Group::try_from(&yaml)
    );
}

#[test]
fn group_should_set_all_given_fields() {
    let yaml = parse("{name: group1, description: text, after: [ other_group ]}");

    let group = Group::try_from(&yaml).unwrap();

    assert_eq!("group1", group.name());
    assert_eq!("text", group.description().unwrap());
    assert_eq!(&["other_group"], group.after_groups());
}

#[test]
fn group_should_leave_optional_fields_empty_if_not_present() {
    let yaml = parse("{name: group1}");

    let group = Group::try_from(&yaml).unwrap();

    assert_eq!("group1", group.name());
    assert!(group.description().is_none());
    assert!(group.after_groups().is_empty());
}

#[test]
fn group_should_error_if_a_value_is_of_the_wrong_kind() {
    let reason = |text: &str| Group::try_from(&parse(text)).unwrap_err().reason;

    assert_eq!(
        MetadataParsingErrorReason::UnexpectedValueType(
            "name",
            YamlObjectType::Group,
            ExpectedType::String
        ),
        reason("{name: [a]}")
    );
    assert_eq!(
        MetadataParsingErrorReason::UnexpectedValueType(
            "description",
            YamlObjectType::Group,
            ExpectedType::String
        ),
        reason("{name: a, description: {b: c}, after: d}")
    );
    assert_eq!(
        MetadataParsingErrorReason::UnexpectedValueType(
            "after",
            YamlObjectType::Group,
            ExpectedType::Array
        ),
        reason("{name: a, after: b}")
    );
    assert_eq!(
        MetadataParsingErrorReason::UnexpectedValueType(
            "after",
            YamlObjectType::Group,
            ExpectedType::String
        ),
        reason("{name: a, after: [b, [c]]}")
    );
}

#[test]
fn group_should_keep_the_order_of_after_groups() {
    let group = Group::try_from(&parse("{after: [c, a, b, a], name: n}")).unwrap();

    assert_eq!(&["c", "a", "b", "a"], group.after_groups());
    assert_eq!(
        Group::new("n".into()).with_after_groups(vec![
            "c".into(),
            "a".into(),
            "b".into(),
            "a".into()
        ]),
        group
    );
}

#[test]
fn location_should_read_a_string_as_the_url() {
    let location = Location::try_from(&parse("'http://www.example.com'")).unwrap();

    assert_eq!("http://www.example.com", location.url());
    assert!(location.name().is_none());
}

#[test]
fn location_should_read_link_and_name_from_a_map() {
    let location =
        Location::try_from(&parse("{link: 'http://www.example.com', name: example}")).unwrap();

    assert_eq!("http://www.example.com", location.url());
    assert_eq!(Some("example"), location.name());
}

#[test]
fn location_should_error_without_link_or_name_or_for_a_list() {
    let reason = |text: &str| Location::try_from(&parse(text)).unwrap_err().reason;

    assert_eq!(
        MetadataParsingErrorReason::MissingKey("link", YamlObjectType::Location),
        reason("{name: example}")
    );
    assert_eq!(
        MetadataParsingErrorReason::MissingKey("name", YamlObjectType::Location),
        reason("{link: example}")
    );
    assert_eq!(
        MetadataParsingErrorReason::UnexpectedType(
            YamlObjectType::Location,
            ExpectedType::MappingOrString
        ),
        reason("[a]")
    );
}

#[test]
fn yaml_helpers_read_the_first_entry_of_a_key() {
    let string = |text: &str| MarkedYaml {
        start: Marker::default(),
        data: YamlData::String(text.to_string()),
    };
    let hash = vec![
        HashEntry {
            key: MarkedYaml {
                start: Marker::default(),
                data: YamlData::Other,
            },
            value: string("other"),
        },
        HashEntry {
            key: string("a"),
            value: string("first"),
        },
        HashEntry {
            key: string("a"),
            value: string("second"),
        },
    ];

    assert_eq!(Some(&string("first")), get(&hash, "a"));
    assert_eq!(None, get(&hash, "b"));
    assert_eq!(
        Ok(Some((Marker::default(), "first"))),
        get_string_value(&hash, "a", YamlObjectType::Tag)
    );
    assert_eq!(Ok(None), get_string_value(&hash, "b", YamlObjectType::Tag));
    assert_eq!(
        Ok("first"),
        get_required_string_value(Marker::default(), &hash, "a", YamlObjectType::Tag)
    );
    assert_eq!(
        Ok(Vec::<&str>::new()),
        get_strings_vec_value(&hash, "b", YamlObjectType::Tag)
    );
    assert_eq!(Ok(None), get_as_slice(&hash, "b", YamlObjectType::Tag));
    assert!(get_as_slice(&hash, "a", YamlObjectType::Tag).is_err());
    assert!(get_as_hash(&string("a"), YamlObjectType::Tag).is_err());
}
