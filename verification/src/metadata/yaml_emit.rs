//! Writing metadata as YAML text.
//!
//! The emitter writes block style: a map as one line for each key, a list
//! as one line for each item, behind a hyphen, and what is nested two
//! spaces further in for each level.

use crate::text::chars_of;
use vstd::prelude::*;
use vstd::string::*;

verus! {

/// A map or a list that the emitter is in the middle of.
#[derive(Clone, Copy, Debug, PartialEq, Eq)]
pub struct YamlBlock {
    /// Whether the block is a list; else it is a map.
    pub is_array: bool,
    /// Whether the next key of the map goes on the line that is being
    /// written, and not on a line of its own.
    pub inline_key: bool,
}

/// What the emitter has written, and the blocks that it is in, the
/// innermost one last.
#[verifier::ext_equal]
pub struct EmitterState {
    pub text: Seq<char>,
    pub scope: Seq<YamlBlock>,
}

/// Writes YAML text piece by piece.
pub struct YamlEmitter {
    buffer: String,
    scope: Vec<YamlBlock>,
}

impl View for YamlEmitter {
    type V = EmitterState;

    closed spec fn view(&self) -> EmitterState {
        EmitterState { text: self.buffer@, scope: self.scope@ }
    }
}

/// `count` spaces.
pub open spec fn spaces(count: nat) -> Seq<char> {
    Seq::new(count, |i: int| ' ')
}

/// The spaces that a line in the innermost of the given blocks starts
/// with: two for each block around it.
pub open spec fn indentation(scope: Seq<YamlBlock>) -> Seq<char> {
    if scope.len() == 0 {
        Seq::empty()
    } else {
        spaces((2 * (scope.len() - 1)) as nat)
    }
}

/// What is written before a list item: a line break unless nothing was
/// written yet, the indentation, a hyphen and a space.
pub open spec fn item_prefix(state: EmitterState) -> Seq<char> {
    (if state.text.len() == 0 {
        Seq::empty()
    } else {
        seq!['\n']
    }) + indentation(state.scope) + seq!['-', ' ']
}

/// `text` with every single quote doubled.
pub open spec fn escape_single_quotes(text: Seq<char>) -> Seq<char>
    decreases text.len(),
{
    if text.len() == 0 {
        Seq::empty()
    } else {
        escape_single_quotes(text.drop_last()) + if text.last() == '\'' {
            seq!['\'', '\'']
        } else {
            seq![text.last()]
        }
    }
}

/// `text` as a single-quoted YAML scalar.
pub open spec fn single_quoted(text: Seq<char>) -> Seq<char> {
    seq!['\''] + escape_single_quotes(text) + seq!['\'']
}

/// The state after a scalar with the given text was written: behind a key
/// it follows a space, in a list it is an item, and outside any block it is
/// written as it is.
pub open spec fn spec_scalar(state: EmitterState, value: Seq<char>) -> EmitterState {
    if state.scope.len() == 0 {
        EmitterState { text: state.text + value, ..state }
    } else if state.scope.last().is_array {
        EmitterState { text: state.text + item_prefix(state) + value, ..state }
    } else {
        EmitterState { text: state.text + seq![' '] + value, ..state }
    }
}

/// The state after a map was begun. As an item of a list the map starts
/// behind the hyphen of the item, and its first key goes on that line; so
/// does the first key of a map that starts the text.
pub open spec fn spec_begin_map(state: EmitterState) -> EmitterState {
    if state.scope.len() > 0 && state.scope.last().is_array {
        EmitterState {
            text: state.text + item_prefix(state),
            scope: state.scope.push(YamlBlock { is_array: false, inline_key: true }),
        }
    } else {
        EmitterState {
            text: state.text,
            scope: state.scope.push(
                YamlBlock {
                    is_array: false,
                    inline_key: state.scope.len() == 0 && state.text.len() == 0,
                },
            ),
        }
    }
}

/// The state after a list was begun. As an item of a list the list starts
/// behind the hyphen of the item.
pub open spec fn spec_begin_array(state: EmitterState) -> EmitterState {
    if state.scope.len() > 0 && state.scope.last().is_array {
        EmitterState {
            text: state.text + item_prefix(state),
            scope: state.scope.push(YamlBlock { is_array: true, inline_key: false }),
        }
    } else {
        EmitterState {
            text: state.text,
            scope: state.scope.push(YamlBlock { is_array: true, inline_key: false }),
        }
    }
}

/// The state after the innermost block was ended.
pub open spec fn spec_end_block(state: EmitterState) -> EmitterState {
    if state.scope.len() == 0 {
        state
    } else {
        EmitterState { text: state.text, scope: state.scope.drop_last() }
    }
}

/// The state after a key of a map was written: the key and a colon, on a
/// line of its own unless it is the first key of a map that starts on the
/// line being written.
pub open spec fn spec_map_key(state: EmitterState, key: Seq<char>) -> EmitterState {
    if state.scope.len() == 0 {
        EmitterState { text: state.text + key + seq![':'], ..state }
    } else if state.scope.last().inline_key {
        EmitterState {
            text: state.text + key + seq![':'],
            scope: state.scope.update(
                state.scope.len() - 1,
                YamlBlock { inline_key: false, ..state.scope.last() },
            ),
        }
    } else {
        EmitterState {
            text: state.text + seq!['\n'] + indentation(state.scope) + key + seq![':'],
            ..state
        }
    }
}

impl YamlEmitter {
    /// An emitter that has written nothing.
    pub fn new() -> (emitter: YamlEmitter)
        ensures
            emitter@ == (EmitterState { text: Seq::empty(), scope: Seq::empty() }),
    {
        YamlEmitter { buffer: String::new(), scope: Vec::new() }
    }

    /// The text that was written.
    pub fn into_string(self) -> (text: String)
        ensures
            text@ == self@.text,
    {
        self.buffer
    }

    /// Writes the indentation of the innermost block.
    fn write_indentation(&mut self)
        ensures
            final(self)@ == (EmitterState {
                text: old(self)@.text + indentation(old(self)@.scope),
                ..old(self)@
            }),
    {
        let ghost before = self.buffer@;
        let mut level: usize = 1;
        proof {
            reveal_strlit("  ");
            assert(before + spaces(0) =~= before);
        }
        if self.scope.len() == 0 {
            assert(self@ =~= old(self)@);
            return ;
        }
        while level < self.scope.len()
            invariant
                1 <= level <= self.scope@.len(),
                self.scope@ == old(self).scope@,
                self.buffer@ == before + spaces((2 * (level - 1)) as nat),
                "  "@.len() == 2,
                "  "@[0] == ' ',
                "  "@[1] == ' ',
            decreases self.scope@.len() - level,
        {
            self.buffer.append("  ");
            assert(self.buffer@ =~= before + spaces((2 * level) as nat));
            level = level + 1;
        }
    }

    /// Writes what stands before a list item.
    fn write_item_prefix(&mut self)
        ensures
            final(self)@ == (EmitterState {
                text: old(self)@.text + item_prefix(old(self)@),
                ..old(self)@
            }),
    {
        proof {
            reveal_strlit("\n");
            reveal_strlit("- ");
        }
        let ghost before = self.buffer@;
        if self.buffer.as_str().unicode_len() > 0 {
            self.buffer.append("\n");
            assert(self.buffer@ =~= before + seq!['\n']);
        } else {
            assert(self.buffer@ =~= before + Seq::<char>::empty());
        }
        self.write_indentation();
        self.buffer.append("- ");
        assert(self.buffer@ =~= before + item_prefix(old(self)@));
    }

    /// Writes a scalar whose text is ready.
    fn write_scalar(&mut self, value: &str)
        ensures
            final(self)@ == spec_scalar(old(self)@, value@),
    {
        proof {
            reveal_strlit(" ");
        }
        let ghost before = self.buffer@;
        if self.scope.len() == 0 {
        } else if self.scope[self.scope.len() - 1].is_array {
            self.write_item_prefix();
        } else {
            self.buffer.append(" ");
            assert(self.buffer@ =~= before + seq![' ']);
        }
        self.buffer.append(value);
        assert(self@ =~= spec_scalar(old(self)@, value@));
    }

    /// Writes a scalar as it is.
    pub fn unquoted_str(&mut self, value: &str)
        ensures
            final(self)@ == spec_scalar(old(self)@, value@),
    {
        self.write_scalar(value);
    }

    /// Writes a scalar in single quotes, with the single quotes in it
    /// doubled.
    pub fn single_quoted_str(&mut self, value: &str)
        ensures
            final(self)@ == spec_scalar(old(self)@, single_quoted(value@)),
    {
        proof {
            reveal_strlit("'");
            reveal_strlit("''");
        }
        let chars = chars_of(value);
        let mut quoted = String::from_str("'");
        let mut start: usize = 0;
        let mut index: usize = 0;
        assert(value@.take(0) =~= Seq::<char>::empty());
        assert(quoted@ =~= seq!['\''] + escape_single_quotes(value@.take(0)));
        while index < chars.len()
            invariant
                start <= index <= chars@.len(),
                chars@ == value@,
                "''"@ =~= seq!['\'', '\''],
                forall|i: int| start <= i < index ==> chars@[i] != '\'',
                quoted@ == seq!['\''] + escape_single_quotes(value@.take(start as int)),
            decreases chars@.len() - index,
        {
            if chars[index] == '\'' {
                let run = value.substring_char(start, index);
                quoted.append(run);
                quoted.append("''");
                proof {
                    lemma_escape_plain(value@, start as int, index as int);
                    assert(value@.take(index + 1).drop_last() =~= value@.take(index as int));
                    assert(quoted@ =~= seq!['\''] + escape_single_quotes(value@.take(index + 1)));
                }
                start = index + 1;
            }
            index = index + 1;
        }
        let run = value.substring_char(start, index);
        quoted.append(run);
        quoted.append("'");
        proof {
            lemma_escape_plain(value@, start as int, index as int);
            assert(value@.take(index as int) =~= value@);
            assert(quoted@ =~= single_quoted(value@));
        }
        self.write_scalar(quoted.as_str());
    }

    /// Begins a map.
    pub fn begin_map(&mut self)
        ensures
            final(self)@ == spec_begin_map(old(self)@),
    {
        let count: usize = self.scope.len();
        if count > 0 && self.scope[count - 1].is_array {
            self.write_item_prefix();
            self.scope.push(YamlBlock { is_array: false, inline_key: true });
        } else {
            let inline_key = count == 0 && self.buffer.as_str().unicode_len() == 0;
            self.scope.push(YamlBlock { is_array: false, inline_key });
        }
    }

    /// Ends the innermost block, which is meant to be a map.
    pub fn end_map(&mut self)
        ensures
            final(self)@ == spec_end_block(old(self)@),
    {
        if self.scope.len() > 0 {
            self.scope.pop();
        }
    }

    /// Begins a list.
    pub fn begin_array(&mut self)
        ensures
            final(self)@ == spec_begin_array(old(self)@),
    {
        let count: usize = self.scope.len();
        if count > 0 && self.scope[count - 1].is_array {
            self.write_item_prefix();
        }
        self.scope.push(YamlBlock { is_array: true, inline_key: false });
    }

    /// Ends the innermost block, which is meant to be a list.
    pub fn end_array(&mut self)
        ensures
            final(self)@ == spec_end_block(old(self)@),
    {
        if self.scope.len() > 0 {
            self.scope.pop();
        }
    }

    /// Writes a key of the innermost map.
    pub fn map_key(&mut self, key: &str)
        ensures
            final(self)@ == spec_map_key(old(self)@, key@),
    {
        proof {
            reveal_strlit("\n");
            reveal_strlit(":");
        }
        let ghost before = self.buffer@;
        let count: usize = self.scope.len();
        if count == 0 {
        } else if self.scope[count - 1].inline_key {
            let block = self.scope[count - 1];
            self.scope.set(count - 1, YamlBlock { is_array: block.is_array, inline_key: false });
        } else {
            self.buffer.append("\n");
            self.write_indentation();
        }
        self.buffer.append(key);
        self.buffer.append(":");
        assert(self@ =~= spec_map_key(old(self)@, key@));
    }
}

/// A stretch of text without a single quote is escaped as it is.
proof fn lemma_escape_plain(text: Seq<char>, start: int, end: int)
    requires
        0 <= start <= end <= text.len(),
        forall|i: int| start <= i < end ==> text[i] != '\'',
    ensures
        escape_single_quotes(text.take(end)) == escape_single_quotes(text.take(start))
            + text.subrange(start, end),
    decreases end - start,
{
    if start == end {
        assert(text.subrange(start, end) =~= Seq::<char>::empty());
        assert(escape_single_quotes(text.take(start)) + Seq::<char>::empty()
            =~= escape_single_quotes(text.take(start)));
    } else {
        lemma_escape_plain(text, start, end - 1);
        assert(text.take(end).drop_last() =~= text.take(end - 1));
        assert(text.subrange(start, end) =~= text.subrange(start, end - 1) + seq![text[end - 1]]);
        assert(escape_single_quotes(text.take(end)) =~= escape_single_quotes(text.take(start))
            + text.subrange(start, end));
    }
}

/// The state after each of the given texts was written as a scalar as it
/// is, one after the other.
pub open spec fn spec_unquoted_items(state: EmitterState, items: Seq<Seq<char>>) -> EmitterState
    decreases items.len(),
{
    if items.len() == 0 {
        state
    } else {
        spec_scalar(spec_unquoted_items(state, items.drop_last()), items.last())
    }
}

/// The state of an emitter that has written nothing.
pub open spec fn fresh_state() -> EmitterState {
    EmitterState { text: Seq::empty(), scope: Seq::empty() }
}

/// Metadata that can be written as YAML.
pub trait EmitYaml {
    /// Whether the metadata is written as a scalar.
    spec fn spec_is_scalar(&self) -> bool;

    /// The state of an emitter after it has written the metadata.
    spec fn spec_emit_yaml(&self, state: EmitterState) -> EmitterState;

    /// Tells whether the metadata is written as a scalar.
    fn is_scalar(&self) -> (scalar: bool)
        ensures
            scalar == self.spec_is_scalar(),
    ;

    /// Writes the metadata.
    fn emit_yaml(&self, emitter: &mut YamlEmitter)
        ensures
            final(emitter)@ == self.spec_emit_yaml(old(emitter)@),
    ;
}

/// Writes metadata as a YAML text of its own.
pub fn emit<T: EmitYaml>(metadata: &T) -> (yaml: String)
    ensures
        yaml@ == metadata.spec_emit_yaml(fresh_state()).text,
{
    let mut emitter = YamlEmitter::new();
    metadata.emit_yaml(&mut emitter);
    emitter.into_string()
}

/// The lines of a list that stands under a key of a map that starts the
/// text: each item on a line of its own, behind two spaces and a hyphen.
pub open spec fn item_lines(items: Seq<Seq<char>>) -> Seq<char>
    decreases items.len(),
{
    if items.len() == 0 {
        Seq::empty()
    } else {
        item_lines(items.drop_last()) + seq!['\n', ' ', ' ', '-', ' '] + items.last()
    }
}

/// What writing the items of a list adds to the text, where the list
/// stands under a key of a map that starts the text.
pub proof fn lemma_unquoted_items_text(state: EmitterState, items: Seq<Seq<char>>)
    requires
        state.scope.len() == 2,
        state.scope.last().is_array,
        state.text.len() > 0,
    ensures
        spec_unquoted_items(state, items).text == state.text + item_lines(items),
        spec_unquoted_items(state, items).scope == state.scope,
    decreases items.len(),
{
    if items.len() == 0 {
        assert(state.text + item_lines(items) =~= state.text);
    } else {
        lemma_unquoted_items_text(state, items.drop_last());
        let before = spec_unquoted_items(state, items.drop_last());
        assert(indentation(before.scope) =~= seq![' ', ' ']);
        assert(item_prefix(before) =~= seq!['\n', ' ', ' ', '-', ' ']);
        assert(spec_unquoted_items(state, items).text =~= state.text + item_lines(items));
    }
}

} // verus!
