//! Groups of plugins.

use crate::metadata::error::{ParseMetadataError, YamlObjectType};
use crate::metadata::yaml::{
    get_as_hash, get_required_string_value, get_string_value, get_strings_vec_value,
    spec_get_as_hash, spec_get_required_string_value, spec_get_string_value,
    spec_get_strings_vec_value, str_texts, MarkedYaml,
};
use crate::metadata::yaml_emit::{
    single_quoted, spec_begin_array, spec_begin_map, spec_end_block, spec_map_key, spec_scalar,
    fresh_state, indentation, item_lines, lemma_unquoted_items_text, spec_unquoted_items,
    EmitYaml, EmitterState, YamlBlock, YamlEmitter,
};
use vstd::prelude::*;
use vstd::string::*;

verus! {

/// What a group holds.
#[verifier::ext_equal]
pub struct GroupText {
    pub name: Seq<char>,
    pub description: Option<Seq<char>>,
    pub after_groups: Seq<Seq<char>>,
}

/// The texts of a list of strings.
pub open spec fn texts(strings: Seq<String>) -> Seq<Seq<char>> {
    strings.map_values(|string: String| string@)
}

/// Represents a group to which plugin metadata objects can belong.
#[derive(Clone, Debug, Eq, PartialEq, Ord, PartialOrd, Hash)]
pub struct Group {
    name: String,
    description: Option<String>,
    after_groups: Vec<String>,
}

impl View for Group {
    type V = GroupText;

    closed spec fn view(&self) -> GroupText {
        GroupText {
            name: self.name@,
            description: match self.description {
                Some(description) => Some(description@),
                None => None,
            },
            after_groups: texts(self.after_groups@),
        }
    }
}

impl Group {
    /// The name of the group to which all plugins belong by default.
    pub const DEFAULT_NAME: &'static str = "default";

    /// Construct a [Group] with the given name.
    #[must_use]
    pub fn new(name: String) -> (group: Group)
        ensures
            group@ == (GroupText { name: name@, description: None, after_groups: Seq::empty() }),
    {
        let group = Group { name, description: None, after_groups: Vec::new() };
        assert(group@.after_groups =~= Seq::empty());
        group
    }

    /// Set a description for the group.
    #[must_use]
    pub fn with_description(self, description: String) -> (group: Group)
        ensures
            group@ == (GroupText { description: Some(description@), ..self@ }),
    {
        let mut group = self;
        group.description = Some(description);
        group
    }

    /// Set the names of the groups that this group loads after.
    #[must_use]
    pub fn with_after_groups(self, after_groups: Vec<String>) -> (group: Group)
        ensures
            group@ == (GroupText { after_groups: texts(after_groups@), ..self@ }),
    {
        let mut group = self;
        group.after_groups = after_groups;
        group
    }

    /// Get the name of the group.
    pub fn name(&self) -> (name: &str)
        ensures
            name@ == self@.name,
    {
        self.name.as_str()
    }

    /// Get the description of the group.
    pub fn description(&self) -> (description: Option<&str>)
        ensures
            match description {
                Some(text) => self@.description == Some(text@),
                None => self@.description is None,
            },
    {
        match &self.description {
            Some(description) => Some(description.as_str()),
            None => None,
        }
    }

    /// Set a description for the group.
    pub fn set_description(&mut self, description: String)
        ensures
            final(self)@ == (GroupText { description: Some(description@), ..old(self)@ }),
    {
        self.description = Some(description);
    }

    /// Get the names of the groups that this group loads after.
    pub fn after_groups(&self) -> (after_groups: &[String])
        ensures
            texts(after_groups@) == self@.after_groups,
    {
        self.after_groups.as_slice()
    }

    /// Set the names of the groups that this group loads after.
    pub fn set_after_groups(&mut self, after_groups: Vec<String>)
        ensures
            final(self)@ == (GroupText { after_groups: texts(after_groups@), ..old(self)@ }),
    {
        self.after_groups = after_groups;
    }
}

impl Default for Group {
    /// Construct a Group with the default name and an empty set of groups to
    /// load after.
    fn default() -> (group: Group)
        ensures
            group@ == (GroupText {
                name: "default"@,
                description: None,
                after_groups: Seq::empty(),
            }),
    {
        let group = Group {
            name: String::from_str("default"),
            description: None,
            after_groups: Vec::new(),
        };
        assert(group@.after_groups =~= Seq::empty());
        group
    }
}

/// The state of an emitter after it has written a group: a map with the
/// name, the description if there is one, and the groups to load after as a
/// list if there are any.
pub open spec fn group_yaml(state: EmitterState, group: GroupText) -> EmitterState {
    let named = spec_scalar(
        spec_map_key(spec_begin_map(state), "name"@),
        single_quoted(group.name),
    );
    let described = match group.description {
        Some(description) => spec_scalar(
            spec_map_key(named, "description"@),
            single_quoted(description),
        ),
        None => named,
    };
    let listed = if group.after_groups.len() > 0 {
        spec_end_block(
            spec_unquoted_items(
                spec_begin_array(spec_map_key(described, "after"@)),
                group.after_groups,
            ),
        )
    } else {
        described
    };
    spec_end_block(listed)
}

impl EmitYaml for Group {
    open spec fn spec_is_scalar(&self) -> bool {
        false
    }

    open spec fn spec_emit_yaml(&self, state: EmitterState) -> EmitterState {
        group_yaml(state, self@)
    }

    fn is_scalar(&self) -> (scalar: bool) {
        false
    }

    fn emit_yaml(&self, emitter: &mut YamlEmitter) {
        emitter.begin_map();

        emitter.map_key("name");
        emitter.single_quoted_str(self.name.as_str());

        match &self.description {
            Some(description) => {
                emitter.map_key("description");
                emitter.single_quoted_str(description.as_str());
            },
            None => {},
        }

        if self.after_groups.len() > 0 {
            emitter.map_key("after");
            emitter.begin_array();
            let ghost begun = emitter@;
            let ghost items = texts(self.after_groups@);

            let mut index: usize = 0;
            while index < self.after_groups.len()
                invariant
                    index <= self.after_groups@.len(),
                    items == texts(self.after_groups@),
                    emitter@ == spec_unquoted_items(begun, items.take(index as int)),
                decreases self.after_groups@.len() - index,
            {
                emitter.unquoted_str(self.after_groups[index].as_str());
                proof {
                    assert(items.take(index + 1).drop_last() =~= items.take(index as int));
                }
                index = index + 1;
            }
            proof {
                assert(items.take(index as int) =~= items);
            }

            emitter.end_array();
        }

        emitter.end_map();
    }
}

/// The group that a YAML node stands for: a map with a name, which has to
/// be there, and maybe a description and a list of the groups to load
/// after. The error is that of the first of these, in this order, that
/// cannot be read.
pub open spec fn spec_group_from_yaml(value: MarkedYaml) -> Result<GroupText, ParseMetadataError> {
    match spec_get_as_hash(value, YamlObjectType::Group) {
        Err(error) => Err(error),
        Ok(hash) => match spec_get_required_string_value(
            value.start,
            hash,
            "name",
            YamlObjectType::Group,
        ) {
            Err(error) => Err(error),
            Ok(name) => match spec_get_string_value(hash, "description", YamlObjectType::Group) {
                Err(error) => Err(error),
                Ok(description) => match spec_get_strings_vec_value(
                    hash,
                    "after",
                    YamlObjectType::Group,
                ) {
                    Err(error) => Err(error),
                    Ok(after) => Ok(
                        GroupText {
                            name,
                            description: match description {
                                Some(found) => Some(found.1),
                                None => None,
                            },
                            after_groups: after,
                        },
                    ),
                },
            },
        },
    }
}

/// Makes owned strings of borrowed ones.
pub fn to_strings(strings: &Vec<&str>) -> (owned: Vec<String>)
    ensures
        texts(owned@) == str_texts(strings@),
{
    let mut owned: Vec<String> = Vec::new();
    let mut index: usize = 0;
    assert(texts(owned@) =~= str_texts(strings@).take(0));
    while index < strings.len()
        invariant
            index <= strings@.len(),
            owned@.len() == index,
            texts(owned@) == str_texts(strings@).take(index as int),
        decreases strings@.len() - index,
    {
        let ghost before = owned@;
        owned.push(String::from_str(strings[index]));
        proof {
            assert(texts(before) == str_texts(strings@).take(index as int));
            assert forall|i: int| 0 <= i < index + 1 implies texts(owned@)[i] == str_texts(
                strings@,
            ).take(index + 1)[i] by {
                if i < index {
                    assert(owned@[i] == before[i]);
                    assert(texts(owned@)[i] == texts(before)[i]);
                    assert(texts(before)[i] == str_texts(strings@).take(index as int)[i]);
                }
            }
            assert(texts(owned@) =~= str_texts(strings@).take(index + 1));
        }
        index = index + 1;
    }
    assert(str_texts(strings@).take(index as int) =~= str_texts(strings@));
    owned
}

impl Group {
    /// Reads a group from a YAML node.
    pub fn try_from(value: &MarkedYaml) -> (result: Result<Group, ParseMetadataError>)
        ensures
            match result {
                Ok(group) => spec_group_from_yaml(*value) == Ok::<GroupText, ParseMetadataError>(
                    group@,
                ),
                Err(error) => spec_group_from_yaml(*value) == Err::<GroupText, ParseMetadataError>(
                    error,
                ),
            },
    {
        let hash = match get_as_hash(value, YamlObjectType::Group) {
            Ok(hash) => hash,
            Err(error) => {
                return Err(error);
            },
        };

        let name = match get_required_string_value(value.start, hash, "name", YamlObjectType::Group) {
            Ok(name) => name,
            Err(error) => {
                return Err(error);
            },
        };

        let description = match get_string_value(hash, "description", YamlObjectType::Group) {
            Ok(description) => description,
            Err(error) => {
                return Err(error);
            },
        };

        let after = match get_strings_vec_value(hash, "after", YamlObjectType::Group) {
            Ok(after) => after,
            Err(error) => {
                return Err(error);
            },
        };

        let group = Group {
            name: String::from_str(name),
            description: match description {
                Some(found) => Some(String::from_str(found.1)),
                None => None,
            },
            after_groups: to_strings(&after),
        };
        assert(group@ =~= spec_group_from_yaml(*value)->Ok_0);
        Ok(group)
    }
}

/// The YAML text of a group that is written on its own.
pub open spec fn group_text(group: GroupText) -> Seq<char> {
    "name: "@ + single_quoted(group.name) + (match group.description {
        Some(description) => "\ndescription: "@ + single_quoted(description),
        None => Seq::empty(),
    }) + (if group.after_groups.len() > 0 {
        "\nafter:"@ + item_lines(group.after_groups)
    } else {
        Seq::empty()
    })
}

/// A group that is written on its own comes out as the lines of its name,
/// of its description and of the groups to load after, as far as they are
/// set; and the emitter is left outside any block.
pub proof fn law_group_is_written_as_its_lines(group: GroupText)
    ensures
        group_yaml(fresh_state(), group) == (EmitterState {
            text: group_text(group),
            scope: Seq::empty(),
        }),
{
    reveal_strlit("name");
    reveal_strlit("description");
    reveal_strlit("after");
    reveal_strlit("name: ");
    reveal_strlit("\ndescription: ");
    reveal_strlit("\nafter:");
    let begun = spec_begin_map(fresh_state());
    let keyed = spec_map_key(begun, "name"@);
    let named = spec_scalar(keyed, single_quoted(group.name));
    assert(named.text =~= "name: "@ + single_quoted(group.name));
    assert(named.scope =~= seq![YamlBlock { is_array: false, inline_key: false }]);
    let described = match group.description {
        Some(description) => spec_scalar(
            spec_map_key(named, "description"@),
            single_quoted(description),
        ),
        None => named,
    };
    let description_text = match group.description {
        Some(description) => "\ndescription: "@ + single_quoted(description),
        None => Seq::empty(),
    };
    assert(indentation(named.scope) =~= Seq::<char>::empty());
    assert(described.text =~= named.text + description_text);
    assert(described.scope == named.scope);
    if group.after_groups.len() > 0 {
        let listing = spec_begin_array(spec_map_key(described, "after"@));
        assert(listing.text =~= described.text + "\nafter:"@);
        assert(listing.scope =~= seq![
            YamlBlock { is_array: false, inline_key: false },
            YamlBlock { is_array: true, inline_key: false },
        ]);
        lemma_unquoted_items_text(listing, group.after_groups);
        let listed = spec_end_block(spec_unquoted_items(listing, group.after_groups));
        assert(listed.scope =~= named.scope);
        assert(spec_end_block(listed).scope =~= Seq::<YamlBlock>::empty());
        assert(spec_end_block(listed).text =~= group_text(group));
        assert(group_yaml(fresh_state(), group) =~= (EmitterState {
            text: group_text(group),
            scope: Seq::empty(),
        }));
    } else {
        assert(spec_end_block(described).scope =~= Seq::<YamlBlock>::empty());
        assert(spec_end_block(described).text =~= group_text(group));
        assert(group_yaml(fresh_state(), group) =~= (EmitterState {
            text: group_text(group),
            scope: Seq::empty(),
        }));
    }
}

} // verus!
