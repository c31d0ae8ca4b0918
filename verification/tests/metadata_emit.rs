use libloot::metadata::group::Group;
use libloot::metadata::location::Location;
use libloot::metadata::yaml_emit::{emit, EmitYaml, YamlEmitter};

#[test]
fn should_omit_description_and_after_keys_if_their_fields_are_empty() {
    let group = Group::new("name".into());
    let yaml = emit(&group);

    assert_eq!(format!("name: '{}'", group.name()), yaml);
}

#[test]
fn should_include_description_key_if_a_description_is_set() {
    let group = Group::new("name".into()).with_description("desc".into());
    let yaml = emit(&group);

    assert_eq!(
        format!(
            "name: '{}'\ndescription: '{}'",
            group.name(),
            group.description().unwrap()
        ),
        yaml
    );
}

#[test]
fn should_include_after_key_if_after_groups_is_not_empty() {
    let group = Group::new("name".into()).with_after_groups(vec!["after1".into(), "after2".into()]);

    let yaml = emit(&group);

    assert_eq!(
        format!(
            "name: '{}'\nafter:\n  - {}\n  - {}",
            group.name(),
            group.after_groups()[0],
            group.after_groups()[1]
        ),
        yaml
    );
}

#[test]
fn group_should_emit_map_with_all_fields_set() {
    let group = Group::new("name".into())
        .with_description("desc".into())
        .with_after_groups(vec!["after1".into(), "after2".into()]);

    let yaml = emit(&group);

    assert_eq!(
        format!(
            "name: '{}'\ndescription: '{}'\nafter:\n  - {}\n  - {}",
            group.name(),
            group.description().unwrap(),
            group.after_groups()[0],
            group.after_groups()[1]
        ),
        yaml
    );
}

#[test]
fn should_emit_url_only_if_there_is_no_name() {
    let location = Location::new("http://www.example.com".into());
    let yaml = emit(&location);

    assert_eq!(format!("'{}'", location.url()), yaml);
}

#[test]
fn should_emit_map_if_there_is_a_name() {
    let location = Location::new("http://www.example.com".into()).with_name("example".into());
    let yaml = emit(&location);

    assert_eq!(
        format!(
            "link: '{}'\nname: '{}'",
            location.url(),
            location.name().unwrap()
        ),
        yaml
    );
}

#[test]
fn group_is_never_a_scalar_and_location_is_one_without_a_name() {
    assert!(!Group::new("name".into()).is_scalar());
    assert!(Location::new("url".into()).is_scalar());
    assert!(!Location::new("url".into()).with_name("n".into()).is_scalar());
}

#[test]
fn single_quoted_str_doubles_single_quotes() {
    let mut emitter = YamlEmitter::new();
    emitter.single_quoted_str("it's 'so'");
    assert_eq!("'it''s ''so'''", emitter.into_string());

    let mut emitter = YamlEmitter::new();
    emitter.single_quoted_str("");
    assert_eq!("''", emitter.into_string());

    let mut emitter = YamlEmitter::new();
    emitter.single_quoted_str("'");
    assert_eq!("''''", emitter.into_string());
}

#[test]
fn emitter_writes_lists_of_groups_as_items() {
    let mut emitter = YamlEmitter::new();
    emitter.begin_map();
    emitter.map_key("groups");
    emitter.begin_array();
    Group::new("a".into())
        .with_after_groups(vec!["b".into()])
        .emit_yaml(&mut emitter);
    Group::new("it's".into()).emit_yaml(&mut emitter);
    emitter.end_array();
    emitter.map_key("count");
    emitter.unquoted_str("2");
    emitter.end_map();

    assert_eq!(
        "groups:\n  - name: 'a'\n    after:\n      - b\n  - name: 'it''s'\ncount: 2",
        emitter.into_string()
    );
}

#[test]
fn emitter_writes_top_level_lists() {
    let mut emitter = YamlEmitter::new();
    emitter.begin_array();
    emitter.unquoted_str("a");
    Location::new("u".into()).emit_yaml(&mut emitter);
    emitter.end_array();
    emitter.end_array();

    assert_eq!("- a\n- 'u'", emitter.into_string());
}
