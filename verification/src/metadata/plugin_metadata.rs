//! The metadata of a plugin, and the helpers that work on plugin names.

use crate::metadata::error::{
    MetadataParsingErrorReason, ParseMetadataError, RegexError, YamlObjectType,
};
use crate::metadata::yaml::{
    are_read_from, get_as_hash, get_required_string_value, get_string_value, get_vec,
    spec_get_as_hash, spec_get_as_slice, spec_get_required_string_value, spec_get_string_value,
    HashEntry, MarkedYaml, Marker, TryFromYaml,
};
use crate::metadata::file::{caseless_eq, unicase_eq, File};
use crate::metadata::location::Location;
use crate::metadata::message::Message;
use crate::metadata::plugin_cleaning_data::PluginCleaningData;
use crate::metadata::tag::Tag;
use crate::regex::{regex, regex_compiles, regex_is_match};
use crate::text::option_text;
use vstd::prelude::*;
use vstd::std_specs::cmp::{PartialEqSpec, PartialEqSpecImpl};
use vstd::string::*;
use vstd::utf8::{encode_utf8, is_char_boundary, is_continuation_byte, valid_utf8};

verus! {

/// The extension that marks a plugin as hidden from the game.
pub const GHOST_FILE_EXTENSION: &'static str = ".ghost";

/// `byte` with an ASCII capital letter turned into its small letter.
pub open spec fn spec_lower_byte(byte: u8) -> u8 {
    if 0x41 <= byte <= 0x5A {
        (byte + 32) as u8
    } else {
        byte
    }
}

/// Turns the byte of an ASCII capital letter into that of its small letter.
pub fn lower_byte(byte: u8) -> (lower: u8)
    ensures
        lower == spec_lower_byte(byte),
{
    if byte >= 0x41 && byte <= 0x5A {
        byte + 32
    } else {
        byte
    }
}

/// Whether `string` ends with `suffix`, byte for byte, but for the case of
/// ASCII letters.
pub open spec fn spec_iends_with_ascii(string: Seq<u8>, suffix: Seq<u8>) -> bool {
    &&& string.len() >= suffix.len()
    &&& forall|i: int|
        0 <= i < suffix.len() ==> spec_lower_byte(#[trigger] string[string.len() - suffix.len() + i])
            == spec_lower_byte(suffix[i])
}

/// Checks whether `string` ends with `suffix`, but for the case of ASCII
/// letters.
pub fn iends_with_ascii(string: &str, suffix: &str) -> (ends: bool)
    ensures
        ends == spec_iends_with_ascii(string.spec_bytes(), suffix.spec_bytes()),
{
    let string_bytes = string.as_bytes();
    let suffix_bytes = suffix.as_bytes();
    if string_bytes.len() < suffix_bytes.len() {
        return false;
    }
    let offset: usize = string_bytes.len() - suffix_bytes.len();
    let mut index: usize = 0;
    while index < suffix_bytes.len()
        invariant
            index <= suffix_bytes@.len(),
            offset + suffix_bytes@.len() == string_bytes@.len() <= usize::MAX,
            string_bytes@ == string.spec_bytes(),
            suffix_bytes@ == suffix.spec_bytes(),
            forall|i: int|
                0 <= i < index ==> spec_lower_byte(#[trigger] string_bytes@[offset + i])
                    == spec_lower_byte(suffix_bytes@[i]),
        decreases suffix_bytes@.len() - index,
    {
        if lower_byte(string_bytes[offset + index]) != lower_byte(suffix_bytes[index]) {
            assert(string_bytes@[string_bytes@.len() - suffix_bytes@.len() + index] == string_bytes@[offset + index]);
            return false;
        }
        index = index + 1;
    }
    assert forall|i: int| 0 <= i < suffix_bytes@.len() implies spec_lower_byte(
        #[trigger] string_bytes@[string_bytes@.len() - suffix_bytes@.len() + i],
    ) == spec_lower_byte(suffix_bytes@[i]) by {
        assert(string_bytes@[offset + i] == string_bytes@[string_bytes@.len() - suffix_bytes@.len() + i]);
    }
    true
}

/// The bytes of a plugin name without the extension that hides it, where
/// it has that extension in any case of letters.
pub open spec fn spec_trim_dot_ghost(string: Seq<u8>) -> Seq<u8> {
    if spec_iends_with_ascii(string, encode_utf8(".ghost"@)) {
        string.take(string.len() - 6)
    } else {
        string
    }
}

/// Cuts the extension that hides a plugin off its name.
pub fn trim_dot_ghost(string: &str) -> (trimmed: &str)
    ensures
        trimmed.spec_bytes() == spec_trim_dot_ghost(string.spec_bytes()),
{
    if iends_with_ascii(string, GHOST_FILE_EXTENSION) {
        let bytes = string.as_bytes();
        let length: usize = bytes.len();
        proof {
            reveal_strlit(".ghost");
            let suffix = ".ghost"@;
            vstd::utf8::is_ascii_chars_encode_utf8(suffix);
            vstd::utf8::encode_utf8_valid_utf8(string@);
            assert(encode_utf8(suffix).len() == 6);
            assert(encode_utf8(suffix)[0] == 0x2Eu8);
            let first = bytes@[length - 6 + 0];
            assert(spec_lower_byte(first) == spec_lower_byte(0x2Eu8));
            assert(first == 0x2Eu8);
            assert(0x2Eu8 & 0xC0 != 0x80) by (bit_vector);
            assert(!is_continuation_byte(first));
            vstd::utf8::is_char_boundary_iff_not_is_continuation_byte(bytes@, length - 6);
        }
        let (trimmed, _) = string.split_at(length - 6);
        trimmed
    } else {
        string
    }
}

/// Whether a plugin name is a regular expression: it is if it holds one of
/// the characters `:\*?|`.
pub open spec fn spec_is_regex_name(name: Seq<char>) -> bool {
    exists|i: int|
        0 <= i < name.len() && (#[trigger] name[i] == ':' || name[i] == '\\' || name[i] == '*'
            || name[i] == '?' || name[i] == '|')
}

/// Checks whether a plugin name is a regular expression.
pub fn is_regex_name(name: &str) -> (is_regex: bool)
    ensures
        is_regex == spec_is_regex_name(name@),
{
    for c in it: name.chars()
        invariant
            it.seq() == name@,
            forall|i: int|
                0 <= i < it.index() ==> !(#[trigger] name@[i] == ':' || name@[i] == '\\' || name@[i]
                    == '*' || name@[i] == '?' || name@[i] == '|'),
    {
        if c == ':' || c == '\\' || c == '*' || c == '?' || c == '|' {
            return true;
        }
    }
    false
}

/// Whether an element equal to `element` stands in `list`.
pub open spec fn held<T: PartialEq>(list: Seq<T>, element: T) -> bool {
    exists|i: int| 0 <= i < list.len() && (#[trigger] list[i]).eq_spec(&element)
}

/// The test that an element passes if none equal to it stands in `list`.
pub open spec fn not_held<T: PartialEq>(list: Seq<T>) -> spec_fn(T) -> bool {
    |element: T| !held(list, element)
}

/// Whether `after` is `before` with the elements of `source` merged into
/// it: `before` stands at its start, and behind it stands a clone of each
/// element of `source` that equals none of `before`, in the order of
/// `source`.
pub open spec fn is_merge<T: PartialEq + Clone>(before: Seq<T>, source: Seq<T>, after: Seq<T>) -> bool {
    let added = source.filter(not_held(before));
    &&& after.len() == before.len() + added.len()
    &&& after.take(before.len() as int) == before
    &&& forall|k: int|
        0 <= k < added.len() ==> cloned(#[trigger] added[k], after[before.len() + k])
}

/// Whether `after` is `before` with a clone of each element of `source`
/// behind it.
pub open spec fn is_extension<T: Clone>(before: Seq<T>, source: Seq<T>, after: Seq<T>) -> bool {
    &&& after.len() == before.len() + source.len()
    &&& after.take(before.len() as int) == before
    &&& forall|k: int|
        0 <= k < source.len() ==> cloned(#[trigger] source[k], after[before.len() + k])
}

/// Appends to `target` a clone of each element of `source` that equals none
/// of the elements that `target` holds at the start. Elements of `source`
/// that equal each other are all appended.
pub fn merge_vecs<T: Clone + PartialEq>(target: &mut Vec<T>, source: &[T])
    ensures
        final(target)@.take(old(target)@.len() as int) == old(target)@,
        T::obeys_eq_spec() ==> is_merge(old(target)@, source@, final(target)@),
{
    let initial_target_len: usize = target.len();
    let ghost initial = target@;
    let ghost test = not_held(initial);
    let mut index: usize = 0;
    proof {
        reveal(Seq::filter);
        assert(target@.take(initial_target_len as int) =~= initial);
        assert(source@.take(0).filter(test) =~= Seq::<T>::empty());
    }
    while index < source.len()
        invariant
            index <= source@.len(),
            initial_target_len == initial.len(),
            test == not_held(initial),
            target@.len() >= initial.len(),
            target@.take(initial_target_len as int) == initial,
            T::obeys_eq_spec() ==> is_merge(initial, source@.take(index as int), target@),
        decreases source@.len() - index,
    {
        let element = &source[index];
        let mut found = false;
        let mut position: usize = 0;
        while position < initial_target_len
            invariant
                position <= initial_target_len,
                initial_target_len == initial.len(),
                initial_target_len <= target@.len(),
                target@.take(initial_target_len as int) == initial,
                T::obeys_eq_spec() ==> (found <==> held(initial.take(position as int), *element)),
            decreases initial_target_len - position,
        {
            assert(target@[position as int] == initial[position as int]);
            let ghost before_found = found;
            if target[position] == *element {
                found = true;
            }
            proof {
                if T::obeys_eq_spec() {
                    let shorter = initial.take(position as int);
                    let longer = initial.take(position + 1);
                    assert(longer[position as int] == initial[position as int]);
                    if held(shorter, *element) {
                        let i = choose|i: int|
                            0 <= i < shorter.len() && (#[trigger] shorter[i]).eq_spec(element);
                        assert(longer[i] == shorter[i]);
                    }
                    if held(longer, *element) && !initial[position as int].eq_spec(element) {
                        let i = choose|i: int|
                            0 <= i < longer.len() && (#[trigger] longer[i]).eq_spec(element);
                        assert(shorter[i] == longer[i]);
                    }
                }
            }
            position = position + 1;
        }
        proof {
            assert(initial.take(position as int) =~= initial);
            assert(source@.take(index + 1) =~= source@.take(index as int).push(source@[index as int]));
            source@.take(index as int).lemma_filter_push(source@[index as int], test);
        }
        if !found {
            let ghost before = target@;
            let copy = element.clone();
            target.push(copy);
            proof {
                assert(target@.take(initial_target_len as int) =~= before.take(
                    initial_target_len as int,
                ));
                if T::obeys_eq_spec() {
                    let added_before = source@.take(index as int).filter(test);
                    let added = source@.take(index + 1).filter(test);
                    assert(added == added_before.push(source@[index as int]));
                    assert forall|k: int| 0 <= k < added.len() implies cloned(
                        #[trigger] added[k],
                        target@[initial.len() + k],
                    ) by {
                        if k < added_before.len() {
                            assert(added[k] == added_before[k]);
                            assert(target@[initial.len() + k] == before[initial.len() + k]);
                        }
                    }
                }
            }
        }
        index = index + 1;
    }
    assert(source@.take(index as int) =~= source@);
}

/// Appends to `target` a clone of each element of `source`.
pub fn extend_vec<T: Clone>(target: &mut Vec<T>, source: &[T])
    ensures
        is_extension(old(target)@, source@, final(target)@),
{
    let ghost initial = target@;
    let mut index: usize = 0;
    assert(target@.take(initial.len() as int) =~= initial);
    while index < source.len()
        invariant
            index <= source@.len(),
            is_extension(initial, source@.take(index as int), target@),
        decreases source@.len() - index,
    {
        let ghost before = target@;
        target.push(source[index].clone());
        proof {
            assert(target@.take(initial.len() as int) =~= before.take(initial.len() as int));
            assert forall|k: int| 0 <= k < index + 1 implies cloned(
                #[trigger] source@.take(index + 1)[k],
                target@[initial.len() + k],
            ) by {
                if k < index {
                    assert(source@.take(index as int)[k] == source@.take(index + 1)[k]);
                    assert(target@[initial.len() + k] == before[initial.len() + k]);
                }
            }
        }
        index = index + 1;
    }
    assert(source@.take(index as int) =~= source@);
}

/// The name of a plugin as metadata knows it: without the extension that
/// hides the plugin.
pub open spec fn plugin_name_text(name: Seq<char>) -> Seq<char> {
    vstd::utf8::decode_utf8(spec_trim_dot_ghost(encode_utf8(name)))
}

/// The regular expression that a plugin name stands for: the name has to
/// match from start to end.
pub open spec fn anchored(name: Seq<char>) -> Seq<char> {
    seq!['^'] + name + seq!['$']
}

/// Whether a plugin name can be the name of plugin metadata: a name that
/// is a regular expression has to be one that can be compiled.
pub open spec fn is_usable_name(name: Seq<char>) -> bool {
    spec_is_regex_name(plugin_name_text(name)) ==> regex_compiles(
        anchored(plugin_name_text(name)),
    )
}

/// The name of a plugin, with the regular expression that it stands for
/// if it is one.
#[derive(Clone, Debug, Default)]
pub struct PluginName {
    string: String,
    regex: Option<fancy_regex::Regex>,
}

impl PartialEq for PluginName {
    fn eq(&self, other: &PluginName) -> (equal: bool) {
        self.string == other.string
    }
}

impl Eq for PluginName {

}

impl PartialEqSpecImpl for PluginName {
    open spec fn obeys_eq_spec() -> bool {
        true
    }

    open spec fn eq_spec(&self, other: &PluginName) -> bool {
        self.spec_string() == other.spec_string()
    }
}

impl PluginName {
    /// The name.
    pub closed spec fn spec_string(&self) -> Seq<char> {
        self.string@
    }

    /// Whether the name is a regular expression.
    pub closed spec fn spec_is_regex(&self) -> bool {
        self.regex is Some
    }

    /// Makes a plugin name of the name of a plugin file.
    pub fn new(name: &str) -> (result: Result<PluginName, Box<fancy_regex::Error>>)
        ensures
            result is Ok <==> is_usable_name(name@),
            result matches Ok(plugin_name) ==> plugin_name.spec_string() == plugin_name_text(name@)
                && plugin_name.spec_is_regex() == spec_is_regex_name(plugin_name_text(name@)),
    {
        let trimmed = trim_dot_ghost(name);
        proof {
            vstd::utf8::encode_utf8_decode_utf8(trimmed@);
        }
        let name = String::from_str(trimmed);

        if is_regex_name(name.as_str()) {
            proof {
                reveal_strlit("^");
                reveal_strlit("$");
            }
            let mut pattern = String::from_str("^");
            pattern.append(name.as_str());
            pattern.append("$");
            assert(pattern@ =~= anchored(name@));
            match regex(pattern.as_str()) {
                Ok(regex) => Ok(PluginName { string: name, regex: Some(regex) }),
                Err(error) => Err(error),
            }
        } else {
            Ok(PluginName { string: name, regex: None })
        }
    }
}

/// Represents a plugin's metadata.
#[derive(Clone, Debug, Default, Eq, PartialEq)]
pub struct PluginMetadata {
    name: PluginName,
    group: Option<String>,
    load_after: Vec<File>,
    requirements: Vec<File>,
    incompatibilities: Vec<File>,
    messages: Vec<Message>,
    tags: Vec<Tag>,
    dirty_info: Vec<PluginCleaningData>,
    clean_info: Vec<PluginCleaningData>,
    locations: Vec<Location>,
}

impl PluginMetadata {
    /// The plugin name.
    pub closed spec fn spec_name(&self) -> Seq<char> {
        self.name.spec_string()
    }

    /// Whether the plugin name is a regular expression.
    pub closed spec fn spec_is_regex_plugin(&self) -> bool {
        self.name.spec_is_regex()
    }

    /// The plugin's group.
    pub closed spec fn spec_group(&self) -> Option<Seq<char>> {
        option_text(self.group)
    }

    /// The plugins that the plugin must load after.
    pub closed spec fn spec_load_after_files(&self) -> Seq<File> {
        self.load_after@
    }

    /// The files that the plugin requires to be installed.
    pub closed spec fn spec_requirements(&self) -> Seq<File> {
        self.requirements@
    }

    /// The files that the plugin is incompatible with.
    pub closed spec fn spec_incompatibilities(&self) -> Seq<File> {
        self.incompatibilities@
    }

    /// The plugin's messages.
    pub closed spec fn spec_messages(&self) -> Seq<Message> {
        self.messages@
    }

    /// The plugin's Bash Tag suggestions.
    pub closed spec fn spec_tags(&self) -> Seq<Tag> {
        self.tags@
    }

    /// The plugin's dirty plugin information.
    pub closed spec fn spec_dirty_info(&self) -> Seq<PluginCleaningData> {
        self.dirty_info@
    }

    /// The plugin's clean plugin information.
    pub closed spec fn spec_clean_info(&self) -> Seq<PluginCleaningData> {
        self.clean_info@
    }

    /// The locations at which this plugin can be found.
    pub closed spec fn spec_locations(&self) -> Seq<Location> {
        self.locations@
    }

    /// Whether no plugin metadata is set.
    pub open spec fn spec_has_name_only(&self) -> bool {
        &&& self.spec_group() is None
        &&& self.spec_load_after_files().len() == 0
        &&& self.spec_requirements().len() == 0
        &&& self.spec_incompatibilities().len() == 0
        &&& self.spec_messages().len() == 0
        &&& self.spec_tags().len() == 0
        &&& self.spec_dirty_info().len() == 0
        &&& self.spec_clean_info().len() == 0
        &&& self.spec_locations().len() == 0
    }

    /// Construct a [PluginMetadata] object with no metadata for a plugin with
    /// the given filename.
    pub fn new(name: &str) -> (result: Result<PluginMetadata, RegexError>)
        ensures
            result is Ok <==> is_usable_name(name@),
            result matches Ok(metadata) ==> metadata.spec_name() == plugin_name_text(name@)
                && metadata.spec_is_regex_plugin() == spec_is_regex_name(plugin_name_text(name@))
                && metadata.spec_has_name_only(),
    {
        match PluginName::new(name) {
            Ok(name) => Ok(
                PluginMetadata {
                    name,
                    group: None,
                    load_after: Vec::new(),
                    requirements: Vec::new(),
                    incompatibilities: Vec::new(),
                    messages: Vec::new(),
                    tags: Vec::new(),
                    dirty_info: Vec::new(),
                    clean_info: Vec::new(),
                    locations: Vec::new(),
                },
            ),
            Err(_) => Err(RegexError {  }),
        }
    }

    /// Get the plugin name.
    pub fn name(&self) -> (name: &str)
        ensures
            name@ == self.spec_name(),
    {
        self.name.string.as_str()
    }

    /// Get the plugin's group.
    ///
    /// The [Option] is `None` if no group is explicitly set.
    pub fn group(&self) -> (group: Option<&str>)
        ensures
            match group {
                Some(text) => self.spec_group() == Some(text@),
                None => self.spec_group() is None,
            },
    {
        match &self.group {
            Some(group) => Some(group.as_str()),
            None => None,
        }
    }

    /// Get the plugins that the plugin must load after.
    pub fn load_after_files(&self) -> (files: &[File])
        ensures
            files@ == self.spec_load_after_files(),
    {
        self.load_after.as_slice()
    }

    /// Get the files that the plugin requires to be installed.
    pub fn requirements(&self) -> (files: &[File])
        ensures
            files@ == self.spec_requirements(),
    {
        self.requirements.as_slice()
    }

    /// Get the files that the plugin is incompatible with.
    pub fn incompatibilities(&self) -> (files: &[File])
        ensures
            files@ == self.spec_incompatibilities(),
    {
        self.incompatibilities.as_slice()
    }

    /// Get the plugin's messages.
    pub fn messages(&self) -> (messages: &[Message])
        ensures
            messages@ == self.spec_messages(),
    {
        self.messages.as_slice()
    }

    /// Get the plugin's Bash Tag suggestions.
    pub fn tags(&self) -> (tags: &[Tag])
        ensures
            tags@ == self.spec_tags(),
    {
        self.tags.as_slice()
    }

    /// Get the plugin's dirty plugin information.
    pub fn dirty_info(&self) -> (info: &[PluginCleaningData])
        ensures
            info@ == self.spec_dirty_info(),
    {
        self.dirty_info.as_slice()
    }

    /// Get the plugin's clean plugin information.
    pub fn clean_info(&self) -> (info: &[PluginCleaningData])
        ensures
            info@ == self.spec_clean_info(),
    {
        self.clean_info.as_slice()
    }

    /// Get the locations at which this plugin can be found.
    pub fn locations(&self) -> (locations: &[Location])
        ensures
            locations@ == self.spec_locations(),
    {
        self.locations.as_slice()
    }

    /// Whether `after` differs from `before` in nothing but what the
    /// setters set.
    pub open spec fn same_name(before: &PluginMetadata, after: &PluginMetadata) -> bool {
        &&& after.spec_name() == before.spec_name()
        &&& after.spec_is_regex_plugin() == before.spec_is_regex_plugin()
    }

    /// Set the plugin's group.
    pub fn set_group(&mut self, group: &str)
        ensures
            final(self).spec_group() == Some(group@),
            Self::same_name(old(self), final(self)),
            final(self).spec_load_after_files() == old(self).spec_load_after_files(),
            final(self).spec_requirements() == old(self).spec_requirements(),
            final(self).spec_incompatibilities() == old(self).spec_incompatibilities(),
            final(self).spec_messages() == old(self).spec_messages(),
            final(self).spec_tags() == old(self).spec_tags(),
            final(self).spec_dirty_info() == old(self).spec_dirty_info(),
            final(self).spec_clean_info() == old(self).spec_clean_info(),
            final(self).spec_locations() == old(self).spec_locations(),
    {
        self.group = Some(String::from_str(group))
    }

    /// Unsets the plugin's group, so that it is implicitly a member of the
    /// default group.
    pub fn unset_group(&mut self)
        ensures
            final(self).spec_group() is None,
            Self::same_name(old(self), final(self)),
            final(self).spec_load_after_files() == old(self).spec_load_after_files(),
            final(self).spec_requirements() == old(self).spec_requirements(),
            final(self).spec_incompatibilities() == old(self).spec_incompatibilities(),
            final(self).spec_messages() == old(self).spec_messages(),
            final(self).spec_tags() == old(self).spec_tags(),
            final(self).spec_dirty_info() == old(self).spec_dirty_info(),
            final(self).spec_clean_info() == old(self).spec_clean_info(),
            final(self).spec_locations() == old(self).spec_locations(),
    {
        self.group = None
    }

    /// Set the plugins that the plugin must load after.
    pub fn set_load_after_files(&mut self, files: Vec<File>)
        ensures
            final(self).spec_load_after_files() == files@,
            Self::same_name(old(self), final(self)),
            final(self).spec_group() == old(self).spec_group(),
            final(self).spec_requirements() == old(self).spec_requirements(),
            final(self).spec_incompatibilities() == old(self).spec_incompatibilities(),
            final(self).spec_messages() == old(self).spec_messages(),
            final(self).spec_tags() == old(self).spec_tags(),
            final(self).spec_dirty_info() == old(self).spec_dirty_info(),
            final(self).spec_clean_info() == old(self).spec_clean_info(),
            final(self).spec_locations() == old(self).spec_locations(),
    {
        self.load_after = files;
    }

    /// Set the files that the plugin requires to be installed.
    pub fn set_requirements(&mut self, files: Vec<File>)
        ensures
            final(self).spec_requirements() == files@,
            Self::same_name(old(self), final(self)),
            final(self).spec_group() == old(self).spec_group(),
            final(self).spec_load_after_files() == old(self).spec_load_after_files(),
            final(self).spec_incompatibilities() == old(self).spec_incompatibilities(),
            final(self).spec_messages() == old(self).spec_messages(),
            final(self).spec_tags() == old(self).spec_tags(),
            final(self).spec_dirty_info() == old(self).spec_dirty_info(),
            final(self).spec_clean_info() == old(self).spec_clean_info(),
            final(self).spec_locations() == old(self).spec_locations(),
    {
        self.requirements = files;
    }

    /// Set the files that the plugin is incompatible with.
    pub fn set_incompatibilities(&mut self, files: Vec<File>)
        ensures
            final(self).spec_incompatibilities() == files@,
            Self::same_name(old(self), final(self)),
            final(self).spec_group() == old(self).spec_group(),
            final(self).spec_load_after_files() == old(self).spec_load_after_files(),
            final(self).spec_requirements() == old(self).spec_requirements(),
            final(self).spec_messages() == old(self).spec_messages(),
            final(self).spec_tags() == old(self).spec_tags(),
            final(self).spec_dirty_info() == old(self).spec_dirty_info(),
            final(self).spec_clean_info() == old(self).spec_clean_info(),
            final(self).spec_locations() == old(self).spec_locations(),
    {
        self.incompatibilities = files;
    }

    /// Set the plugin's messages.
    pub fn set_messages(&mut self, messages: Vec<Message>)
        ensures
            final(self).spec_messages() == messages@,
            Self::same_name(old(self), final(self)),
            final(self).spec_group() == old(self).spec_group(),
            final(self).spec_load_after_files() == old(self).spec_load_after_files(),
            final(self).spec_requirements() == old(self).spec_requirements(),
            final(self).spec_incompatibilities() == old(self).spec_incompatibilities(),
            final(self).spec_tags() == old(self).spec_tags(),
            final(self).spec_dirty_info() == old(self).spec_dirty_info(),
            final(self).spec_clean_info() == old(self).spec_clean_info(),
            final(self).spec_locations() == old(self).spec_locations(),
    {
        self.messages = messages;
    }

    /// Set the plugin's Bash Tag suggestions.
    pub fn set_tags(&mut self, tags: Vec<Tag>)
        ensures
            final(self).spec_tags() == tags@,
            Self::same_name(old(self), final(self)),
            final(self).spec_group() == old(self).spec_group(),
            final(self).spec_load_after_files() == old(self).spec_load_after_files(),
            final(self).spec_requirements() == old(self).spec_requirements(),
            final(self).spec_incompatibilities() == old(self).spec_incompatibilities(),
            final(self).spec_messages() == old(self).spec_messages(),
            final(self).spec_dirty_info() == old(self).spec_dirty_info(),
            final(self).spec_clean_info() == old(self).spec_clean_info(),
            final(self).spec_locations() == old(self).spec_locations(),
    {
        self.tags = tags;
    }

    /// Set the plugin's dirty plugin information.
    pub fn set_dirty_info(&mut self, dirty_info: Vec<PluginCleaningData>)
        ensures
            final(self).spec_dirty_info() == dirty_info@,
            Self::same_name(old(self), final(self)),
            final(self).spec_group() == old(self).spec_group(),
            final(self).spec_load_after_files() == old(self).spec_load_after_files(),
            final(self).spec_requirements() == old(self).spec_requirements(),
            final(self).spec_incompatibilities() == old(self).spec_incompatibilities(),
            final(self).spec_messages() == old(self).spec_messages(),
            final(self).spec_tags() == old(self).spec_tags(),
            final(self).spec_clean_info() == old(self).spec_clean_info(),
            final(self).spec_locations() == old(self).spec_locations(),
    {
        self.dirty_info = dirty_info;
    }

    /// Set the plugin's clean plugin information.
    pub fn set_clean_info(&mut self, clean_info: Vec<PluginCleaningData>)
        ensures
            final(self).spec_clean_info() == clean_info@,
            Self::same_name(old(self), final(self)),
            final(self).spec_group() == old(self).spec_group(),
            final(self).spec_load_after_files() == old(self).spec_load_after_files(),
            final(self).spec_requirements() == old(self).spec_requirements(),
            final(self).spec_incompatibilities() == old(self).spec_incompatibilities(),
            final(self).spec_messages() == old(self).spec_messages(),
            final(self).spec_tags() == old(self).spec_tags(),
            final(self).spec_dirty_info() == old(self).spec_dirty_info(),
            final(self).spec_locations() == old(self).spec_locations(),
    {
        self.clean_info = clean_info;
    }

    /// Set the locations at which this plugin can be found.
    pub fn set_locations(&mut self, locations: Vec<Location>)
        ensures
            final(self).spec_locations() == locations@,
            Self::same_name(old(self), final(self)),
            final(self).spec_group() == old(self).spec_group(),
            final(self).spec_load_after_files() == old(self).spec_load_after_files(),
            final(self).spec_requirements() == old(self).spec_requirements(),
            final(self).spec_incompatibilities() == old(self).spec_incompatibilities(),
            final(self).spec_messages() == old(self).spec_messages(),
            final(self).spec_tags() == old(self).spec_tags(),
            final(self).spec_dirty_info() == old(self).spec_dirty_info(),
            final(self).spec_clean_info() == old(self).spec_clean_info(),
    {
        self.locations = locations;
    }

    /// Merge metadata from the given [PluginMetadata] object into this object.
    ///
    /// If an equal metadata object already exists in this PluginMetadata
    /// object, it is not duplicated. This object's group is replaced by the
    /// given object's group if the latter is explicit and this object has
    /// none. Messages are all appended. Metadata with a name only changes
    /// nothing.
    pub fn merge_metadata(&mut self, plugin: &PluginMetadata)
        ensures
            Self::same_name(old(self), final(self)),
            plugin.spec_has_name_only() ==> {
                &&& final(self).spec_group() == old(self).spec_group()
                &&& final(self).spec_load_after_files() == old(self).spec_load_after_files()
                &&& final(self).spec_requirements() == old(self).spec_requirements()
                &&& final(self).spec_incompatibilities() == old(self).spec_incompatibilities()
                &&& final(self).spec_messages() == old(self).spec_messages()
                &&& final(self).spec_tags() == old(self).spec_tags()
                &&& final(self).spec_dirty_info() == old(self).spec_dirty_info()
                &&& final(self).spec_clean_info() == old(self).spec_clean_info()
                &&& final(self).spec_locations() == old(self).spec_locations()
            },
            !plugin.spec_has_name_only() ==> {
                &&& final(self).spec_group() == if old(self).spec_group() is None {
                    plugin.spec_group()
                } else {
                    old(self).spec_group()
                }
                &&& is_merge(
                    old(self).spec_load_after_files(),
                    plugin.spec_load_after_files(),
                    final(self).spec_load_after_files(),
                )
                &&& is_merge(
                    old(self).spec_requirements(),
                    plugin.spec_requirements(),
                    final(self).spec_requirements(),
                )
                &&& is_merge(
                    old(self).spec_incompatibilities(),
                    plugin.spec_incompatibilities(),
                    final(self).spec_incompatibilities(),
                )
                &&& is_merge(old(self).spec_tags(), plugin.spec_tags(), final(self).spec_tags())
                &&& is_extension(
                    old(self).spec_messages(),
                    plugin.spec_messages(),
                    final(self).spec_messages(),
                )
                &&& is_merge(
                    old(self).spec_dirty_info(),
                    plugin.spec_dirty_info(),
                    final(self).spec_dirty_info(),
                )
                &&& is_merge(
                    old(self).spec_clean_info(),
                    plugin.spec_clean_info(),
                    final(self).spec_clean_info(),
                )
                &&& is_merge(
                    old(self).spec_locations(),
                    plugin.spec_locations(),
                    final(self).spec_locations(),
                )
            },
    {
        if plugin.has_name_only() {
            return ;
        }

        if self.group.is_none() {
            match &plugin.group {
                Some(group) => {
                    self.group = Some(group.clone());
                },
                None => {},
            }
        }

        merge_vecs(&mut self.load_after, plugin.load_after.as_slice());
        merge_vecs(&mut self.requirements, plugin.requirements.as_slice());
        merge_vecs(&mut self.incompatibilities, plugin.incompatibilities.as_slice());
        merge_vecs(&mut self.tags, plugin.tags.as_slice());
        extend_vec(&mut self.messages, plugin.messages.as_slice());
        merge_vecs(&mut self.dirty_info, plugin.dirty_info.as_slice());
        merge_vecs(&mut self.clean_info, plugin.clean_info.as_slice());
        merge_vecs(&mut self.locations, plugin.locations.as_slice());
    }

    /// Check if no plugin metadata is set.
    pub fn has_name_only(&self) -> (name_only: bool)
        ensures
            name_only == self.spec_has_name_only(),
    {
        self.group.is_none() && self.load_after.len() == 0 && self.requirements.len() == 0
            && self.incompatibilities.len() == 0 && self.messages.len() == 0 && self.tags.len()
            == 0 && self.dirty_info.len() == 0 && self.clean_info.len() == 0
            && self.locations.len() == 0
    }

    /// Check if the plugin name is a regular expression.
    ///
    /// Returns `true` if the plugin name contains any of the characters `:\*?|`
    /// and `false` otherwise.
    pub fn is_regex_plugin(&self) -> (is_regex: bool)
        ensures
            is_regex == self.spec_is_regex_plugin(),
    {
        self.name.regex.is_some()
    }

    /// Check if the given plugin name matches this plugin metadata object's
    /// name field.
    ///
    /// If the name field is a regular expression, the given plugin name will be
    /// matched against it, otherwise the strings will be compared
    /// case-insensitively. The given plugin name must be literal, i.e. not a
    /// regular expression.
    pub fn name_matches(&self, other_name: &str) -> (matches: bool)
        ensures
            !self.spec_is_regex_plugin() ==> matches == caseless_eq(self.spec_name(), other_name@),
    {
        match &self.name.regex {
            Some(regex) => matched(regex_is_match(regex, other_name)),
            None => unicase_eq(self.name.string.as_str(), other_name),
        }
    }
}

/// What the answer of the regular expression engine counts as: a match
/// only if it says so, and no match if it fails.
pub fn matched(answer: Result<bool, Box<fancy_regex::Error>>) -> (matches: bool)
    ensures
        matches == (answer matches Ok(found) && found),
{
    match answer {
        Ok(found) => found,
        Err(_) => false,
    }
}

/// Whether reading plugin metadata from a YAML node fails with the given
/// error. What is read, in this order: the map, the name, which has to be
/// one that can be used, the group, and the lists of files to load after,
/// of requirements, of incompatibilities, of messages, of tags, of dirty
/// and of clean information and of locations. The error is that of the
/// first of these that cannot be read.
pub open spec fn metadata_read_fails(value: MarkedYaml, error: ParseMetadataError) -> bool {
    match spec_get_as_hash(value, YamlObjectType::PluginMetadata) {
        Err(expected) => error == expected,
        Ok(hash) => match spec_get_required_string_value(
            value.start,
            hash,
            "name",
            YamlObjectType::PluginMetadata,
        ) {
            Err(expected) => error == expected,
            Ok(name) => if !is_usable_name(name) {
                error == (ParseMetadataError {
                    marker: value.start,
                    reason: MetadataParsingErrorReason::InvalidRegex,
                })
            } else {
                match spec_get_string_value(hash, "group", YamlObjectType::PluginMetadata) {
                    Err(expected) => error == expected,
                    Ok(_) => lists_read_fail(hash, error),
                }
            },
        },
    }
}

/// Whether reading the lists of plugin metadata fails with the given
/// error: the error is that of a list before which every list can be read.
pub open spec fn lists_read_fail(hash: Seq<HashEntry>, error: ParseMetadataError) -> bool {
    ||| list_read_fails::<File>(hash, "after", error)
    ||| (list_is_readable::<File>(hash, "after") && {
        ||| list_read_fails::<File>(hash, "req", error)
        ||| (list_is_readable::<File>(hash, "req") && {
            ||| list_read_fails::<File>(hash, "inc", error)
            ||| (list_is_readable::<File>(hash, "inc") && {
                ||| list_read_fails::<Message>(hash, "msg", error)
                ||| (list_is_readable::<Message>(hash, "msg") && {
                    ||| list_read_fails::<Tag>(hash, "tag", error)
                    ||| (list_is_readable::<Tag>(hash, "tag") && {
                        ||| list_read_fails::<PluginCleaningData>(hash, "dirty", error)
                        ||| (list_is_readable::<PluginCleaningData>(hash, "dirty") && {
                            ||| list_read_fails::<PluginCleaningData>(hash, "clean", error)
                            ||| (list_is_readable::<PluginCleaningData>(hash, "clean")
                                && list_read_fails::<Location>(hash, "url", error))
                        })
                    })
                })
            })
        })
    })
}

/// Whether the list under a key can be read.
pub open spec fn list_is_readable<T: TryFromYaml>(hash: Seq<HashEntry>, key: &'static str) -> bool {
    exists|read: Seq<T>| list_is_read(hash, key, read)
}

/// Whether reading the list under a key fails with the given error.
pub open spec fn list_read_fails<T: TryFromYaml>(
    hash: Seq<HashEntry>,
    key: &'static str,
    error: ParseMetadataError,
) -> bool {
    match spec_get_as_slice(hash, key, YamlObjectType::PluginMetadata) {
        Ok(items) => are_read_from(items, Err::<Seq<T>, ParseMetadataError>(error)),
        Err(expected) => error == expected,
    }
}

/// Whether `read` is what the list under a key is read as.
pub open spec fn list_is_read<T: TryFromYaml>(hash: Seq<HashEntry>, key: &'static str, read: Seq<T>) -> bool {
    match spec_get_as_slice(hash, key, YamlObjectType::PluginMetadata) {
        Ok(items) => are_read_from(items, Ok::<Seq<T>, ParseMetadataError>(read)),
        Err(_) => false,
    }
}

impl PluginMetadata {
    /// Whether the metadata is what a YAML node is read as: a map with a
    /// name, which has to be there, and maybe a group and lists of files
    /// to load after, of requirements, of incompatibilities, of messages,
    /// of tags, of dirty and clean information and of locations.
    pub open spec fn is_read_from(&self, value: MarkedYaml) -> bool {
        match spec_get_as_hash(value, YamlObjectType::PluginMetadata) {
            Err(_) => false,
            Ok(hash) => {
                &&& spec_get_required_string_value(
                    value.start,
                    hash,
                    "name",
                    YamlObjectType::PluginMetadata,
                ) matches Ok(name) && is_usable_name(name) && self.spec_name() == plugin_name_text(
                    name,
                ) && self.spec_is_regex_plugin() == spec_is_regex_name(plugin_name_text(name))
                &&& spec_get_string_value(hash, "group", YamlObjectType::PluginMetadata) matches Ok(
                    group,
                ) && self.spec_group() == (match group {
                    Some(found) => Some(found.1),
                    None => None,
                })
                &&& list_is_read(hash, "after", self.spec_load_after_files())
                &&& list_is_read(hash, "req", self.spec_requirements())
                &&& list_is_read(hash, "inc", self.spec_incompatibilities())
                &&& list_is_read(hash, "msg", self.spec_messages())
                &&& list_is_read(hash, "tag", self.spec_tags())
                &&& list_is_read(hash, "dirty", self.spec_dirty_info())
                &&& list_is_read(hash, "clean", self.spec_clean_info())
                &&& list_is_read(hash, "url", self.spec_locations())
            },
        }
    }

    /// Reads plugin metadata from a YAML node.
    pub fn try_from(value: &MarkedYaml) -> (result: Result<PluginMetadata, ParseMetadataError>)
        ensures
            match result {
                Ok(metadata) => metadata.is_read_from(*value),
                Err(error) => metadata_read_fails(*value, error),
            },
    {
        let hash = match get_as_hash(value, YamlObjectType::PluginMetadata) {
            Ok(hash) => hash,
            Err(error) => {
                return Err(error);
            },
        };

        let name = match get_required_string_value(
            value.start,
            hash,
            "name",
            YamlObjectType::PluginMetadata,
        ) {
            Ok(name) => name,
            Err(error) => {
                return Err(error);
            },
        };
        let name = match PluginName::new(name) {
            Ok(n) => n,
            Err(_) => {
                return Err(
                    ParseMetadataError::new(value.start, MetadataParsingErrorReason::InvalidRegex),
                );
            },
        };

        let group = match get_string_value(hash, "group", YamlObjectType::PluginMetadata) {
            Ok(group) => group,
            Err(error) => {
                return Err(error);
            },
        };

        let load_after = match get_vec::<File>(hash, "after", YamlObjectType::PluginMetadata) {
            Ok(read) => read,
            Err(error) => {
                return Err(error);
            },
        };
        assert(list_is_readable::<File>(hash@, "after")) by {
            assert(list_is_read(hash@, "after", load_after@));
        }
        let requirements = match get_vec::<File>(hash, "req", YamlObjectType::PluginMetadata) {
            Ok(read) => read,
            Err(error) => {
                return Err(error);
            },
        };
        assert(list_is_readable::<File>(hash@, "req")) by {
            assert(list_is_read(hash@, "req", requirements@));
        }
        let incompatibilities = match get_vec::<File>(hash, "inc", YamlObjectType::PluginMetadata) {
            Ok(read) => read,
            Err(error) => {
                return Err(error);
            },
        };
        assert(list_is_readable::<File>(hash@, "inc")) by {
            assert(list_is_read(hash@, "inc", incompatibilities@));
        }
        let messages = match get_vec::<Message>(hash, "msg", YamlObjectType::PluginMetadata) {
            Ok(read) => read,
            Err(error) => {
                return Err(error);
            },
        };
        assert(list_is_readable::<Message>(hash@, "msg")) by {
            assert(list_is_read(hash@, "msg", messages@));
        }
        let tags = match get_vec::<Tag>(hash, "tag", YamlObjectType::PluginMetadata) {
            Ok(read) => read,
            Err(error) => {
                return Err(error);
            },
        };
        assert(list_is_readable::<Tag>(hash@, "tag")) by {
            assert(list_is_read(hash@, "tag", tags@));
        }
        let dirty_info = match get_vec::<PluginCleaningData>(
            hash,
            "dirty",
            YamlObjectType::PluginMetadata,
        ) {
            Ok(read) => read,
            Err(error) => {
                return Err(error);
            },
        };
        assert(list_is_readable::<PluginCleaningData>(hash@, "dirty")) by {
            assert(list_is_read(hash@, "dirty", dirty_info@));
        }
        let clean_info = match get_vec::<PluginCleaningData>(
            hash,
            "clean",
            YamlObjectType::PluginMetadata,
        ) {
            Ok(read) => read,
            Err(error) => {
                return Err(error);
            },
        };
        assert(list_is_readable::<PluginCleaningData>(hash@, "clean")) by {
            assert(list_is_read(hash@, "clean", clean_info@));
        }
        let locations = match get_vec::<Location>(hash, "url", YamlObjectType::PluginMetadata) {
            Ok(read) => read,
            Err(error) => {
                return Err(error);
            },
        };

        Ok(
            PluginMetadata {
                name,
                group: match group {
                    Some(found) => Some(String::from_str(found.1)),
                    None => None,
                },
                load_after,
                requirements,
                incompatibilities,
                messages,
                dirty_info,
                clean_info,
                tags,
                locations,
            },
        )
    }
}

} // verus!
