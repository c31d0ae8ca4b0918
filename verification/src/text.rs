//! Text helpers: characters of a string, and comparison that ignores the
//! case of ASCII letters.

use vstd::prelude::*;
use vstd::string::*;

verus! {

/// `c` with an ASCII capital letter turned into its small letter.
pub open spec fn spec_to_ascii_lowercase(c: char) -> char {
    if 'A' <= c <= 'Z' {
        ((c as u8) + 32) as char
    } else {
        c
    }
}

/// Turns an ASCII capital letter into its small letter, and leaves every
/// other character as it is.
pub fn to_ascii_lowercase(c: char) -> (lower: char)
    ensures
        lower == spec_to_ascii_lowercase(c),
{
    if c >= 'A' && c <= 'Z' {
        ((c as u8) + 32) as char
    } else {
        c
    }
}

/// Whether two texts are equal but for the case of their ASCII letters.
pub open spec fn spec_eq_ignore_ascii_case(left: Seq<char>, right: Seq<char>) -> bool {
    &&& left.len() == right.len()
    &&& forall|i: int|
        0 <= i < left.len() ==> spec_to_ascii_lowercase(#[trigger] left[i])
            == spec_to_ascii_lowercase(right[i])
}

/// Whether `text` starts with `prefix`, but for the case of ASCII letters.
pub open spec fn spec_starts_with_ignore_ascii_case(text: Seq<char>, prefix: Seq<char>) -> bool {
    &&& prefix.len() <= text.len()
    &&& spec_eq_ignore_ascii_case(text.take(prefix.len() as int), prefix)
}

/// The characters of a string.
pub fn chars_of(text: &str) -> (chars: Vec<char>)
    ensures
        chars@ == text@,
{
    let mut chars: Vec<char> = Vec::new();
    for c in it: text.chars()
        invariant
            chars@ == it.seq().take(it.index()),
            it.seq() == text@,
    {
        chars.push(c);
    }
    chars
}

/// Whether two ranges of characters are equal but for the case of their
/// ASCII letters.
pub fn eq_ignore_ascii_case(left: &[char], right: &[char]) -> (equal: bool)
    ensures
        equal == spec_eq_ignore_ascii_case(left@, right@),
{
    if left.len() != right.len() {
        return false;
    }
    let mut index: usize = 0;
    while index < left.len()
        invariant
            index <= left@.len(),
            left@.len() == right@.len(),
            forall|i: int|
                0 <= i < index ==> spec_to_ascii_lowercase(#[trigger] left@[i])
                    == spec_to_ascii_lowercase(right@[i]),
        decreases left@.len() - index,
    {
        if to_ascii_lowercase(left[index]) != to_ascii_lowercase(right[index]) {
            return false;
        }
        index = index + 1;
    }
    true
}

/// Whether `text` starts with `prefix`, but for the case of ASCII letters.
pub fn starts_with_ignore_ascii_case(text: &[char], prefix: &[char]) -> (starts: bool)
    ensures
        starts == spec_starts_with_ignore_ascii_case(text@, prefix@),
{
    if prefix.len() > text.len() {
        return false;
    }
    eq_ignore_ascii_case(&text[0..prefix.len()], prefix)
}

/// Whether two strings hold the same text.
pub fn str_eq(left: &str, right: &str) -> (equal: bool)
    ensures
        equal == (left@ == right@),
{
    let left_bytes = left.as_bytes();
    let right_bytes = right.as_bytes();
    proof {
        vstd::utf8::encode_utf8_decode_utf8(left@);
        vstd::utf8::encode_utf8_decode_utf8(right@);
    }
    if left_bytes.len() != right_bytes.len() {
        return false;
    }
    let mut index: usize = 0;
    while index < left_bytes.len()
        invariant
            index <= left_bytes@.len(),
            left_bytes@.len() == right_bytes@.len(),
            left_bytes@ == left.spec_bytes(),
            right_bytes@ == right.spec_bytes(),
            vstd::utf8::decode_utf8(left.spec_bytes()) == left@,
            vstd::utf8::decode_utf8(right.spec_bytes()) == right@,
            forall|i: int| 0 <= i < index ==> left_bytes@[i] == right_bytes@[i],
        decreases left_bytes@.len() - index,
    {
        if left_bytes[index] != right_bytes[index] {
            return false;
        }
        index = index + 1;
    }
    assert(left_bytes@ =~= right_bytes@);
    true
}

/// The index of the first element of `list` that passes `test`.
pub open spec fn first_index<A>(list: Seq<A>, test: spec_fn(A) -> bool) -> Option<int>
    decreases list.len(),
{
    if list.len() == 0 {
        None
    } else {
        match first_index(list.drop_last(), test) {
            Some(index) => Some(index),
            None => if test(list.last()) {
                Some(list.len() - 1)
            } else {
                None
            },
        }
    }
}

/// The index of the last element of `list` that passes `test`.
pub open spec fn last_index<A>(list: Seq<A>, test: spec_fn(A) -> bool) -> Option<int>
    decreases list.len(),
{
    if list.len() == 0 {
        None
    } else if test(list.last()) {
        Some(list.len() - 1)
    } else {
        last_index(list.drop_last(), test)
    }
}

/// What one more element does to the first index in a prefix.
pub proof fn lemma_first_index_step<A>(list: Seq<A>, test: spec_fn(A) -> bool, length: int)
    requires
        0 <= length < list.len(),
    ensures
        first_index(list.take(length + 1), test) == match first_index(list.take(length), test) {
            Some(index) => Some(index),
            None => if test(list[length]) {
                Some(length)
            } else {
                None
            },
        },
        last_index(list.take(length + 1), test) == if test(list[length]) {
            Some(length)
        } else {
            last_index(list.take(length), test)
        },
{
    assert(list.take(length + 1).drop_last() =~= list.take(length));
}

/// The first index in a prefix that has one is the first index in the
/// whole, and it is the index of an element that passes the test.
pub proof fn lemma_first_index_of_prefix<A>(list: Seq<A>, test: spec_fn(A) -> bool, length: int)
    requires
        0 <= length <= list.len(),
        first_index(list.take(length), test) is Some,
    ensures
        first_index(list, test) == first_index(list.take(length), test),
    decreases list.len(),
{
    if length == list.len() {
        assert(list.take(length) =~= list);
    } else {
        assert(list.drop_last().take(length) =~= list.take(length));
        lemma_first_index_of_prefix(list.drop_last(), test, length);
    }
}

/// The test that a character passes if it is `wanted`.
pub open spec fn is_char(wanted: char) -> spec_fn(char) -> bool {
    |c: char| c == wanted
}

/// Finds the first place of a character in a text.
pub fn find_char(text: &[char], wanted: char) -> (place: Option<usize>)
    ensures
        match place {
            Some(index) => first_index(text@, is_char(wanted)) == Some(index as int) && index
                < text@.len(),
            None => first_index(text@, is_char(wanted)) is None,
        },
{
    let mut index: usize = 0;
    while index < text.len()
        invariant
            index <= text@.len(),
            first_index(text@.take(index as int), is_char(wanted)) is None,
        decreases text@.len() - index,
    {
        proof {
            lemma_first_index_step(text@, is_char(wanted), index as int);
        }
        if text[index] == wanted {
            proof {
                lemma_first_index_of_prefix(text@, is_char(wanted), index + 1);
            }
            return Some(index);
        }
        index = index + 1;
    }
    assert(text@.take(index as int) =~= text@);
    None
}

/// The text of a string that may be there.
pub open spec fn option_text(string: Option<String>) -> Option<Seq<char>> {
    match string {
        Some(text) => Some(text@),
        None => None,
    }
}

/// Whether two strings that may be there hold the same text, or are both
/// not there.
pub fn option_string_eq(left: &Option<String>, right: &Option<String>) -> (equal: bool)
    ensures
        equal == (option_text(*left) == option_text(*right)),
{
    match (left, right) {
        (Some(a), Some(b)) => *a == *b,
        (None, None) => true,
        _ => false,
    }
}

/// Whether `pattern` stands in `text` at the given place.
pub open spec fn spec_matches_at(text: Seq<char>, pattern: Seq<char>, at: int) -> bool {
    0 <= at && at + pattern.len() <= text.len() && text.subrange(at, at + pattern.len()) == pattern
}

/// Whether `pattern` stands somewhere in `text`.
pub open spec fn spec_contains(text: Seq<char>, pattern: Seq<char>) -> bool {
    exists|at: int| spec_matches_at(text, pattern, at)
}

/// `text` with `with` in place of `pattern`, wherever `pattern` stands in
/// it: the text is read from the left, and what has been replaced is not
/// read again. An empty pattern is found nowhere.
pub open spec fn spec_replace(text: Seq<char>, pattern: Seq<char>, with: Seq<char>) -> Seq<char>
    decreases text.len(),
{
    if pattern.len() == 0 || text.len() < pattern.len() {
        text
    } else if text.take(pattern.len() as int) == pattern {
        with + spec_replace(text.skip(pattern.len() as int), pattern, with)
    } else {
        seq![text[0]] + spec_replace(text.skip(1), pattern, with)
    }
}

/// Checks whether `pattern` stands in `text` at the given place.
pub fn matches_at(text: &[char], pattern: &[char], at: usize) -> (matches: bool)
    ensures
        matches == spec_matches_at(text@, pattern@, at as int),
{
    if pattern.len() > text.len() || at > text.len() - pattern.len() {
        return false;
    }
    let mut index: usize = 0;
    while index < pattern.len()
        invariant
            index <= pattern@.len(),
            at + pattern@.len() <= text@.len() <= usize::MAX,
            forall|i: int| 0 <= i < index ==> text@[at + i] == pattern@[i],
        decreases pattern@.len() - index,
    {
        if text[at + index] != pattern[index] {
            assert(text@.subrange(at as int, at + pattern@.len())[index as int] != pattern@[index as int]);
            return false;
        }
        index = index + 1;
    }
    assert(text@.subrange(at as int, at + pattern@.len()) =~= pattern@);
    true
}

/// Checks whether `pattern` stands somewhere in `text`.
pub fn contains(text: &str, pattern: &str) -> (found: bool)
    ensures
        found == spec_contains(text@, pattern@),
{
    let text_chars = chars_of(text);
    let pattern_chars = chars_of(pattern);
    let mut at: usize = 0;
    while at < text_chars.len()
        invariant
            at <= text_chars@.len(),
            text_chars@ == text@,
            pattern_chars@ == pattern@,
            forall|i: int| 0 <= i < at ==> !spec_matches_at(text@, pattern@, i),
        decreases text_chars@.len() - at,
    {
        if matches_at(text_chars.as_slice(), pattern_chars.as_slice(), at) {
            return true;
        }
        at = at + 1;
    }
    matches_at(text_chars.as_slice(), pattern_chars.as_slice(), at)
}

/// Replaces `pattern` by `with` wherever it stands in `text`.
pub fn replace(text: &str, pattern: &str, with: &str) -> (replaced: String)
    ensures
        replaced@ == spec_replace(text@, pattern@, with@),
{
    let text_chars = chars_of(text);
    let pattern_chars = chars_of(pattern);
    let length: usize = text_chars.len();
    let width: usize = pattern_chars.len();
    if width == 0 || length < width {
        return String::from_str(text);
    }
    let mut replaced = String::new();
    let mut start: usize = 0;
    let mut at: usize = 0;
    proof {
        assert(text@.skip(0) =~= text@);
        assert(replaced@ + text@.subrange(0, 0) + spec_replace(text@.skip(0), pattern@, with@)
            =~= spec_replace(text@, pattern@, with@));
    }
    while at <= length - width
        invariant
            start <= at <= length,
            0 < width <= length,
            length == text@.len(),
            width == pattern@.len(),
            text_chars@ == text@,
            pattern_chars@ == pattern@,
            replaced@ + text@.subrange(start as int, at as int) + spec_replace(
                text@.skip(at as int),
                pattern@,
                with@,
            ) == spec_replace(text@, pattern@, with@),
        decreases length - at,
    {
        let ghost rest = text@.skip(at as int);
        let ghost done = replaced@;
        proof {
            assert(rest.take(width as int) =~= text@.subrange(at as int, at + width));
        }
        if matches_at(text_chars.as_slice(), pattern_chars.as_slice(), at) {
            replaced.append(text.substring_char(start, at));
            replaced.append(with);
            proof {
                assert(rest.skip(width as int) =~= text@.skip(at + width));
                assert(text@.subrange(at + width, at + width) =~= Seq::<char>::empty());
                assert(replaced@ + text@.subrange(at + width, at + width) + spec_replace(
                    text@.skip(at + width),
                    pattern@,
                    with@,
                ) =~= done + text@.subrange(start as int, at as int) + spec_replace(
                    rest,
                    pattern@,
                    with@,
                ));
            }
            at = at + width;
            start = at;
        } else {
            proof {
                assert(rest.skip(1) =~= text@.skip(at + 1));
                assert(text@.subrange(start as int, at + 1) =~= text@.subrange(
                    start as int,
                    at as int,
                ) + seq![text@[at as int]]);
                assert(done + text@.subrange(start as int, at + 1) + spec_replace(
                    text@.skip(at + 1),
                    pattern@,
                    with@,
                ) =~= done + text@.subrange(start as int, at as int) + spec_replace(
                    rest,
                    pattern@,
                    with@,
                ));
            }
            at = at + 1;
        }
    }
    replaced.append(text.substring_char(start, length));
    proof {
        let rest = text@.skip(at as int);
        assert(spec_replace(rest, pattern@, with@) == rest);
        assert(text@.subrange(start as int, length as int) =~= text@.subrange(
            start as int,
            at as int,
        ) + rest);
        assert(replaced@ =~= spec_replace(text@, pattern@, with@));
    }
    replaced
}

/// The character of a decimal digit.
pub open spec fn digit_char(digit: nat) -> char {
    if digit == 0 {
        '0'
    } else if digit == 1 {
        '1'
    } else if digit == 2 {
        '2'
    } else if digit == 3 {
        '3'
    } else if digit == 4 {
        '4'
    } else if digit == 5 {
        '5'
    } else if digit == 6 {
        '6'
    } else if digit == 7 {
        '7'
    } else if digit == 8 {
        '8'
    } else {
        '9'
    }
}

/// A number written in decimal digits.
pub open spec fn spec_decimal(number: nat) -> Seq<char>
    decreases number,
{
    if number < 10 {
        seq![digit_char(number)]
    } else {
        spec_decimal(number / 10) + seq![digit_char(number % 10)]
    }
}

/// The text of a decimal digit.
fn digit_str(digit: usize) -> (text: &'static str)
    requires
        digit < 10,
    ensures
        text@ == seq![digit_char(digit as nat)],
{
    proof {
        reveal_strlit("0");
        reveal_strlit("1");
        reveal_strlit("2");
        reveal_strlit("3");
        reveal_strlit("4");
        reveal_strlit("5");
        reveal_strlit("6");
        reveal_strlit("7");
        reveal_strlit("8");
        reveal_strlit("9");
    }
    let text = if digit == 0 {
        "0"
    } else if digit == 1 {
        "1"
    } else if digit == 2 {
        "2"
    } else if digit == 3 {
        "3"
    } else if digit == 4 {
        "4"
    } else if digit == 5 {
        "5"
    } else if digit == 6 {
        "6"
    } else if digit == 7 {
        "7"
    } else if digit == 8 {
        "8"
    } else {
        "9"
    };
    assert(text@ =~= seq![digit_char(digit as nat)]);
    text
}

/// Writes a number in decimal digits.
pub fn decimal(number: usize) -> (text: String)
    ensures
        text@ == spec_decimal(number as nat),
    decreases number,
{
    if number < 10 {
        String::from_str(digit_str(number))
    } else {
        let mut text = decimal(number / 10);
        text.append(digit_str(number % 10));
        text
    }
}

} // verus!
