//! File paths as the library sees them: a directory that is carried through
//! unread, and the name of a file in it, which the rules take apart.

use crate::text::{chars_of, eq_ignore_ascii_case, spec_eq_ignore_ascii_case};
use vstd::prelude::*;
use vstd::string::*;

verus! {

/// The text of a path.
#[verifier::ext_equal]
pub struct PathText {
    pub directory: Seq<char>,
    pub file_name: Seq<char>,
}

/// A path to a file: the directory that holds the file, and the file's name.
#[derive(Clone, Debug, PartialEq, Eq)]
pub struct FilePath {
    pub directory: String,
    pub file_name: String,
}

impl View for FilePath {
    type V = PathText;

    open spec fn view(&self) -> PathText {
        PathText { directory: self.directory@, file_name: self.file_name@ }
    }
}

/// The texts of a list of paths.
pub open spec fn path_texts(paths: Seq<FilePath>) -> Seq<PathText> {
    paths.map_values(|path: FilePath| path@)
}

/// The index of the last dot in `name`.
pub open spec fn spec_last_dot(name: Seq<char>) -> Option<int>
    decreases name.len(),
{
    if name.len() == 0 {
        None
    } else if name.last() == '.' {
        Some(name.len() - 1)
    } else {
        spec_last_dot(name.drop_last())
    }
}

/// The index of the dot that parts the stem of a file name from its
/// extension: the last dot, unless it is the first character of the name
/// or the name is `..`.
pub open spec fn spec_extension_dot(name: Seq<char>) -> Option<int> {
    match spec_last_dot(name) {
        Some(dot) => if dot == 0 || name =~= seq!['.', '.'] {
            None
        } else {
            Some(dot)
        },
        None => None,
    }
}

/// The stem of a file name: what stands before the dot of its extension,
/// or the whole name if it has no extension.
pub open spec fn spec_file_stem(name: Seq<char>) -> Seq<char> {
    match spec_extension_dot(name) {
        Some(dot) => name.take(dot),
        None => name,
    }
}

/// The extension of a file name, without its dot, if the name has one.
pub open spec fn spec_extension(name: Seq<char>) -> Option<Seq<char>> {
    match spec_extension_dot(name) {
        Some(dot) => Some(name.skip(dot + 1)),
        None => None,
    }
}

/// A file name made of a stem, a dot and an extension.
pub open spec fn spec_join_extension(stem: Seq<char>, extension: Seq<char>) -> Seq<char> {
    stem + seq!['.'] + extension
}

/// Whether the extension of a file name is `extension`, but for the case of
/// ASCII letters.
pub open spec fn spec_has_ascii_extension(name: Seq<char>, extension: Seq<char>) -> bool {
    match spec_extension(name) {
        Some(found) => spec_eq_ignore_ascii_case(found, extension),
        None => false,
    }
}

/// The last dot of a text is the last dot of any prefix that leaves out no
/// dot.
proof fn lemma_last_dot_of_prefix(name: Seq<char>, length: int)
    requires
        0 <= length <= name.len(),
        forall|i: int| length <= i < name.len() ==> name[i] != '.',
    ensures
        spec_last_dot(name) == spec_last_dot(name.take(length)),
    decreases name.len() - length,
{
    if length == name.len() {
        assert(name.take(length) =~= name);
    } else {
        assert(name.drop_last().take(length) =~= name.take(length));
        lemma_last_dot_of_prefix(name.drop_last(), length);
    }
}

/// Finds the last dot in `name`.
pub fn last_dot(name: &[char]) -> (dot: Option<usize>)
    ensures
        match dot {
            Some(index) => spec_last_dot(name@) == Some(index as int) && index < name@.len(),
            None => spec_last_dot(name@) is None,
        },
{
    let mut index: usize = name.len();
    while index > 0
        invariant
            index <= name@.len(),
            forall|i: int| index <= i < name@.len() ==> name@[i] != '.',
        decreases index,
    {
        index = index - 1;
        if name[index] == '.' {
            proof {
                lemma_last_dot_of_prefix(name@, index + 1);
            }
            return Some(index);
        }
    }
    proof {
        lemma_last_dot_of_prefix(name@, 0);
    }
    None
}

/// Finds the dot that parts the stem of a file name from its extension.
pub fn extension_dot(name: &[char]) -> (dot: Option<usize>)
    ensures
        match dot {
            Some(index) => spec_extension_dot(name@) == Some(index as int) && index < name@.len(),
            None => spec_extension_dot(name@) is None,
        },
{
    match last_dot(name) {
        Some(index) => {
            if index == 0 || (name.len() == 2 && name[0] == '.' && name[1] == '.') {
                None
            } else {
                Some(index)
            }
        },
        None => None,
    }
}

/// The stem of a file name.
pub fn file_stem(name: &str) -> (stem: String)
    ensures
        stem@ == spec_file_stem(name@),
{
    let chars = chars_of(name);
    match extension_dot(chars.as_slice()) {
        Some(dot) => String::from_str(name.substring_char(0, dot)),
        None => String::from_str(name),
    }
}

/// The extension of a file name, if it has one.
pub fn extension(name: &str) -> (found: Option<String>)
    ensures
        match found {
            Some(text) => spec_extension(name@) == Some(text@),
            None => spec_extension(name@) is None,
        },
{
    let chars = chars_of(name);
    let count: usize = chars.len();
    match extension_dot(chars.as_slice()) {
        Some(dot) => Some(String::from_str(name.substring_char(dot + 1, count))),
        None => None,
    }
}

/// Makes a file name of a stem, a dot and an extension.
pub fn join_extension(stem: &str, extension: &str) -> (name: String)
    ensures
        name@ == spec_join_extension(stem@, extension@),
{
    let mut name = String::from_str(stem);
    proof {
        reveal_strlit(".");
        assert("."@ =~= seq!['.']);
    }
    name.append(".");
    name.append(extension);
    name
}

/// Checks whether the extension of a file name is `extension`, but for the
/// case of ASCII letters.
pub fn has_ascii_extension(name: &str, extension: &str) -> (has: bool)
    ensures
        has == spec_has_ascii_extension(name@, extension@),
{
    let chars = chars_of(name);
    let wanted = chars_of(extension);
    let count: usize = chars.len();
    match extension_dot(chars.as_slice()) {
        Some(dot) => {
            let found = &chars.as_slice()[dot + 1..count];
            eq_ignore_ascii_case(found, wanted.as_slice())
        },
        None => false,
    }
}

impl FilePath {
    /// Makes a path of a directory and the name of a file in it.
    pub fn new(directory: String, file_name: String) -> (path: FilePath)
        ensures
            path.directory == directory,
            path.file_name == file_name,
    {
        FilePath { directory, file_name }
    }

    /// Whether two paths are the same text.
    pub fn same_text(&self, other: &FilePath) -> (same: bool)
        ensures
            same == (self@ == other@),
    {
        self.directory == other.directory && self.file_name == other.file_name
    }

    /// A copy of the path.
    pub fn duplicate(&self) -> (path: FilePath)
        ensures
            path@ == self@,
    {
        FilePath { directory: self.directory.clone(), file_name: self.file_name.clone() }
    }

    /// The path of another file in the same directory.
    pub fn with_file_name(&self, file_name: String) -> (path: FilePath)
        ensures
            path@ == (PathText { directory: self.directory@, file_name: file_name@ }),
    {
        FilePath { directory: self.directory.clone(), file_name }
    }
}

} // verus!
