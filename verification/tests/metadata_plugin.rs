use libloot::metadata::error::{MetadataParsingErrorReason, RegexError, YamlObjectType};
use libloot::metadata::file::File;
use libloot::metadata::location::Location;
use libloot::metadata::message::{Message, MessageType};
use libloot::metadata::plugin_cleaning_data::PluginCleaningData;
use libloot::metadata::plugin_metadata::{
    extend_vec, iends_with_ascii, is_regex_name, matched, merge_vecs, trim_dot_ghost,
    PluginMetadata, PluginName, GHOST_FILE_EXTENSION,
};
use libloot::metadata::tag::{Tag, TagSuggestion};
use libloot::metadata::yaml::{HashEntry, MarkedYaml, Marker, TryFromYaml, YamlData};
use saphyr::LoadableYamlNode;

fn convert(node: &saphyr::MarkedYaml) -> MarkedYaml {
    let start = Marker {
        index: node.span.start.index(),
        line: node.span.start.line(),
        column: node.span.start.col(),
    };
    let data = match &node.data {
        saphyr::YamlData::Value(saphyr::Scalar::String(s)) => YamlData::String(s.to_string()),
        saphyr::YamlData::Value(saphyr::Scalar::Integer(i)) => YamlData::Integer(*i),
        saphyr::YamlData::Sequence(items) => YamlData::Array(items.iter().map(convert).collect()),
        saphyr::YamlData::Mapping(entries) => YamlData::Hash(
            entries
                .iter()
                .map(|(key, value)| HashEntry {
                    key: convert(key),
                    value: convert(value),
                })
                .collect(),
        ),
        _ => YamlData::Other,
    };
    MarkedYaml { start, data }
}

fn parse(text: &str) -> MarkedYaml {
    let documents = saphyr::MarkedYaml::load_from_str(text).unwrap();
    convert(&documents[0])
}

#[test]
fn iends_with_ascii_ignores_the_case_of_ascii_letters() {
    assert!(iends_with_ascii("Blank.esp.ghost", ".ghost"));
    assert!(iends_with_ascii("Blank.esp.GHOST", ".ghost"));
    assert!(iends_with_ascii("Blank.esp.ghost", ".GhOsT"));
    assert!(iends_with_ascii(".ghost", ".ghost"));
    assert!(iends_with_ascii("abc", ""));
    assert!(!iends_with_ascii("ghost", ".ghost"));
    assert!(!iends_with_ascii("Blank.esp.ghosts", ".ghost"));
    assert!(!iends_with_ascii("Blank.esp", ".ghost"));
    assert!(!iends_with_ascii("a\u{00C1}", "a\u{00E1}"));
    assert!(iends_with_ascii("a\u{00C1}", "A\u{00C1}"));
}

#[test]
fn trim_dot_ghost_cuts_the_extension_in_any_case() {
    assert_eq!(".ghost", GHOST_FILE_EXTENSION);
    assert_eq!("Blank.esp", trim_dot_ghost("Blank.esp.ghost"));
    assert_eq!("Blank.esp", trim_dot_ghost("Blank.esp.GHOST"));
    assert_eq!("Blank.esp", trim_dot_ghost("Blank.esp"));
    assert_eq!("", trim_dot_ghost(".ghost"));
    assert_eq!("Blank.ghost", trim_dot_ghost("Blank.ghost.ghost"));
    assert_eq!("non\u{00C1}scii.esp", trim_dot_ghost("non\u{00C1}scii.esp.Ghost"));
    assert_eq!("ghost", trim_dot_ghost("ghost"));
}

#[test]
fn is_regex_name_looks_for_the_five_characters() {
    for name in ["a:b", "a\\b", "a*", "?a", "a|b", "Blank.*\\.esp"] {
        assert!(is_regex_name(name));
    }
    for name in ["", "Blank.esp", "a.b+c(d)[e]{f}^$", "non\u{00C1}scii.esp"] {
        assert!(!is_regex_name(name));
    }
}

#[test]
fn merge_vecs_appends_what_the_target_did_not_hold_at_the_start() {
    let mut target = vec![1, 2, 3];
    merge_vecs(&mut target, &[3, 4, 1, 4, 5]);
    assert_eq!(vec![1, 2, 3, 4, 4, 5], target);

    let mut target: Vec<u8> = Vec::new();
    merge_vecs(&mut target, &[]);
    assert!(target.is_empty());

    let mut target = vec![File::new("a.esp".into())];
    merge_vecs(
        &mut target,
        &[
            File::new("A.ESP".into()),
            File::new("b.esp".into()),
            File::new("a.esp".into()).with_display_name("d".into()),
        ],
    );
    assert_eq!(3, target.len());
    assert_eq!("a.esp", target[0].name().as_str());
    assert_eq!("b.esp", target[1].name().as_str());
    assert_eq!(Some("d"), target[2].display_name());

    let mut target = vec![1];
    extend_vec(&mut target, &[1, 2, 1]);
    assert_eq!(vec![1, 1, 2, 1], target);
}

#[test]
fn plugin_metadata_new_trims_the_name_and_compiles_a_regex() {
    let plugin = PluginMetadata::new("Blank.esp.ghost").unwrap();
    assert_eq!("Blank.esp", plugin.name());
    assert!(!plugin.is_regex_plugin());
    assert!(plugin.has_name_only());

    let plugin = PluginMetadata::new("Blank.*\\.esp").unwrap();
    assert_eq!("Blank.*\\.esp", plugin.name());
    assert!(plugin.is_regex_plugin());

    assert_eq!(
        Err(RegexError {}),
        PluginMetadata::new("Blank(\\.esp").map(|p| p.name().to_string())
    );
    assert!(PluginMetadata::new("Blank(.esp").is_ok());
    assert!(PluginName::new("a|(").is_err());
}

#[test]
fn plugin_metadata_name_matches_by_regex_or_without_case() {
    let plugin = PluginMetadata::new("Blank.esp").unwrap();
    assert!(plugin.name_matches("Blank.esp"));
    assert!(plugin.name_matches("blank.ESP"));
    assert!(!plugin.name_matches("Blank.esm"));
    assert!(!plugin.name_matches("Blank.esp.ghost"));
    assert!(!plugin.name_matches("BlankXesp"));
    let plugin = PluginMetadata::new("non\u{00C1}scii.esp").unwrap();
    assert!(plugin.name_matches("NON\u{00E1}SCII.esp"));

    let plugin = PluginMetadata::new("Blank.*\\.esp").unwrap();
    assert!(plugin.name_matches("Blank.esp"));
    assert!(plugin.name_matches("blank - different.ESP"));
    assert!(!plugin.name_matches("Blank.esm"));
    assert!(!plugin.name_matches("A Blank.esp"));
    assert!(!plugin.name_matches("Blank.esp.ghost"));
}

#[test]
fn matched_counts_a_failed_match_as_none() {
    assert!(matched(Ok(true)));
    assert!(!matched(Ok(false)));
    assert!(!matched(PluginName::new("a|(").map(|_| true)));
}

#[test]
fn plugin_metadata_setters_replace_what_was_set() {
    let mut plugin = PluginMetadata::new("Blank.esp").unwrap();

    plugin.set_group("group");
    assert_eq!(Some("group"), plugin.group());
    assert!(!plugin.has_name_only());
    plugin.unset_group();
    assert_eq!(None, plugin.group());
    assert!(plugin.has_name_only());

    plugin.set_load_after_files(vec![File::new("a".into())]);
    plugin.set_requirements(vec![File::new("b".into())]);
    plugin.set_incompatibilities(vec![File::new("c".into())]);
    plugin.set_messages(vec![Message::new(MessageType::Say, "m".into())]);
    plugin.set_tags(vec![Tag::new("t".into(), TagSuggestion::Addition)]);
    plugin.set_dirty_info(vec![PluginCleaningData::new(1, "u".into())]);
    plugin.set_clean_info(vec![PluginCleaningData::new(2, "v".into())]);
    plugin.set_locations(vec![Location::new("l".into())]);

    assert_eq!(&[File::new("a".into())], plugin.load_after_files());
    assert_eq!(&[File::new("b".into())], plugin.requirements());
    assert_eq!(&[File::new("c".into())], plugin.incompatibilities());
    assert_eq!(&[Message::new(MessageType::Say, "m".into())], plugin.messages());
    assert_eq!(&[Tag::new("t".into(), TagSuggestion::Addition)], plugin.tags());
    assert_eq!(&[PluginCleaningData::new(1, "u".into())], plugin.dirty_info());
    assert_eq!(&[PluginCleaningData::new(2, "v".into())], plugin.clean_info());
    assert_eq!(&[Location::new("l".into())], plugin.locations());
    assert_eq!("Blank.esp", plugin.name());

    for clear in 0..8 {
        let mut only = PluginMetadata::new("Blank.esp").unwrap();
        match clear {
            0 => only.set_load_after_files(vec![File::new("a".into())]),
            1 => only.set_requirements(vec![File::new("a".into())]),
            2 => only.set_incompatibilities(vec![File::new("a".into())]),
            3 => only.set_messages(vec![Message::new(MessageType::Say, "m".into())]),
            4 => only.set_tags(vec![Tag::new("t".into(), TagSuggestion::Addition)]),
            5 => only.set_dirty_info(vec![PluginCleaningData::new(1, "u".into())]),
            6 => only.set_clean_info(vec![PluginCleaningData::new(1, "u".into())]),
            _ => only.set_locations(vec![Location::new("l".into())]),
        }
        assert!(!only.has_name_only());
    }
}

#[test]
fn merge_metadata_merges_lists_and_keeps_an_explicit_group() {
    let mut target = PluginMetadata::new("Blank.esp").unwrap();
    target.set_load_after_files(vec![File::new("a".into())]);
    target.set_tags(vec![Tag::new("t".into(), TagSuggestion::Addition)]);
    target.set_messages(vec![Message::new(MessageType::Say, "m".into())]);

    let mut source = PluginMetadata::new("Other.esp").unwrap();
    source.set_group("group");
    source.set_load_after_files(vec![File::new("A".into()), File::new("b".into())]);
    source.set_requirements(vec![File::new("r".into())]);
    source.set_incompatibilities(vec![File::new("i".into())]);
    source.set_tags(vec![
        Tag::new("t".into(), TagSuggestion::Removal),
        Tag::new("t".into(), TagSuggestion::Addition),
    ]);
    source.set_messages(vec![Message::new(MessageType::Say, "m".into())]);
    source.set_dirty_info(vec![PluginCleaningData::new(1, "u".into())]);
    source.set_clean_info(vec![PluginCleaningData::new(2, "u".into())]);
    source.set_locations(vec![Location::new("l".into())]);

    target.merge_metadata(&source);

    assert_eq!("Blank.esp", target.name());
    assert_eq!(Some("group"), target.group());
    assert_eq!(2, target.load_after_files().len());
    assert_eq!("a", target.load_after_files()[0].name().as_str());
    assert_eq!("b", target.load_after_files()[1].name().as_str());
    assert_eq!(&[File::new("r".into())], target.requirements());
    assert_eq!(&[File::new("i".into())], target.incompatibilities());
    assert_eq!(
        &[
            Tag::new("t".into(), TagSuggestion::Addition),
            Tag::new("t".into(), TagSuggestion::Removal)
        ],
        target.tags()
    );
    assert_eq!(
        &[
            Message::new(MessageType::Say, "m".into()),
            Message::new(MessageType::Say, "m".into())
        ],
        target.messages()
    );
    assert_eq!(&[PluginCleaningData::new(1, "u".into())], target.dirty_info());
    assert_eq!(&[PluginCleaningData::new(2, "u".into())], target.clean_info());
    assert_eq!(&[Location::new("l".into())], target.locations());

    let mut other = PluginMetadata::new("Third.esp").unwrap();
    other.set_group("other");
    target.merge_metadata(&other);
    assert_eq!(Some("group"), target.group());

    let mut grouped = PluginMetadata::new("Blank.esp").unwrap();
    grouped.set_tags(vec![Tag::new("t".into(), TagSuggestion::Addition)]);
    grouped.merge_metadata(&PluginMetadata::new("Name only.esp").unwrap());
    assert_eq!(None, grouped.group());
    assert_eq!(1, grouped.tags().len());
}

#[test]
fn plugin_metadata_try_from_reads_every_list() {
    let plugin = PluginMetadata::try_from(&parse(
        "name: 'Blank.esp.ghost'
group: group1
after: [a.esp, {name: b.esp, display: B}]
req: [r.esp]
inc: [i.esp]
msg:
  - type: warn
    content: text
tag: [Relev, -Delev]
dirty:
  - crc: 0x12345678
    util: utility
    itm: 1
    udr: 2
    nav: 3
clean:
  - crc: 5
    util: other
    detail: done
url: ['http://www.example.com', {link: 'http://other.example.com', name: other}]",
    ))
    .unwrap();

    assert_eq!("Blank.esp", plugin.name());
    assert!(!plugin.is_regex_plugin());
    assert_eq!(Some("group1"), plugin.group());
    assert_eq!(
        &[
            File::new("a.esp".into()),
            File::new("b.esp".into()).with_display_name("B".into())
        ],
        plugin.load_after_files()
    );
    assert_eq!(&[File::new("r.esp".into())], plugin.requirements());
    assert_eq!(&[File::new("i.esp".into())], plugin.incompatibilities());
    assert_eq!(&[Message::new(MessageType::Warn, "text".into())], plugin.messages());
    assert_eq!(
        &[
            Tag::new("Relev".into(), TagSuggestion::Addition),
            Tag::new("Delev".into(), TagSuggestion::Removal)
        ],
        plugin.tags()
    );
    assert_eq!(1, plugin.dirty_info().len());
    let dirty = &plugin.dirty_info()[0];
    assert_eq!(0x12345678, dirty.crc());
    assert_eq!("utility", dirty.cleaning_utility());
    assert_eq!(1, dirty.itm_count());
    assert_eq!(2, dirty.deleted_reference_count());
    assert_eq!(3, dirty.deleted_navmesh_count());
    assert!(dirty.detail().is_empty());
    let clean = &plugin.clean_info()[0];
    assert_eq!(5, clean.crc());
    assert_eq!(0, clean.itm_count());
    assert_eq!("done", clean.detail()[0].text());
    assert_eq!(
        &[
            Location::new("http://www.example.com".into()),
            Location::new("http://other.example.com".into()).with_name("other".into())
        ],
        plugin.locations()
    );
}

#[test]
fn plugin_metadata_try_from_reports_the_first_thing_that_cannot_be_read() {
    let reason = |text: &str| PluginMetadata::try_from(&parse(text)).unwrap_err().reason;

    assert!(PluginMetadata::try_from(&parse("{name: Blank.esp}"))
        .unwrap()
        .has_name_only());
    assert_eq!(
        MetadataParsingErrorReason::MissingKey("name", YamlObjectType::PluginMetadata),
        reason("{group: a}")
    );
    assert_eq!(MetadataParsingErrorReason::InvalidRegex, reason("{name: 'a|('}"));
    assert_eq!(
        MetadataParsingErrorReason::MissingKey("name", YamlObjectType::File),
        reason("{name: a, req: [{display: b}], tag: [[c]]}")
    );
    assert_eq!(
        MetadataParsingErrorReason::MissingKey("crc", YamlObjectType::PluginCleaningData),
        reason("{name: a, dirty: [{util: b}]}")
    );
    assert!(PluginCleaningData::try_from_yaml(&parse("{crc: -1, util: b}")).is_err());
    assert!(PluginCleaningData::try_from_yaml(&parse("{crc: 4294967296, util: b}")).is_err());
    assert!(PluginCleaningData::try_from_yaml(&parse("{crc: 4294967295, util: b}")).is_ok());
    assert!(PluginCleaningData::try_from_yaml(&parse("{crc: a, util: b}")).is_err());
}

#[test]
fn plugin_metadata_equality_reads_the_name_and_every_list() {
    let base = || {
        let mut plugin = PluginMetadata::new("Blank.esp").unwrap();
        plugin.set_tags(vec![Tag::new("t".into(), TagSuggestion::Addition)]);
        plugin.set_load_after_files(vec![File::new("a.esp".into())]);
        plugin
    };

    assert_eq!(base(), base());
    assert_eq!(base(), base().clone());
    assert_ne!(base(), PluginMetadata::new("Blank.esp").unwrap());
    let mut other = base();
    other.set_load_after_files(vec![File::new("A.ESP".into())]);
    assert_eq!(base(), other);
    other.set_group("g");
    assert_ne!(base(), other);
    let mut renamed = PluginMetadata::new("blank.esp").unwrap();
    renamed.merge_metadata(&base());
    assert_ne!(base(), renamed);
    assert_eq!(
        PluginMetadata::new("Blank.esp").unwrap(),
        PluginMetadata::new("Blank.esp.ghost").unwrap()
    );
}
