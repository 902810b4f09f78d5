//! Text as sequences of characters: the few operations on strings that the
//! rest of the library is written in.

use vstd::prelude::*;
use vstd::string::*;

use crate::outside::{hex_digit, hex_text, is_space};

verus! {

/// The lower-case form of an ASCII letter; any other character as it is.
pub open spec fn lower_char(c: char) -> char {
    if 'A' <= c && c <= 'Z' {
        (c as u32 + 32) as char
    } else {
        c
    }
}

/// Whether a character is a hexadecimal digit in lower case.
pub open spec fn is_hex_digit(c: char) -> bool {
    ('0' <= c && c <= '9') || ('a' <= c && c <= 'f')
}

/// Whether a text has nothing but hexadecimal digits in lower case.
pub open spec fn is_hex(text: Seq<char>) -> bool {
    forall|i: int| 0 <= i < text.len() ==> is_hex_digit(#[trigger] text[i])
}

/// Bytes in hexadecimal are nothing but digits, two for each.
pub proof fn lemma_hex_text(data: Seq<u8>)
    ensures
        hex_text(data).len() == 2 * data.len(),
        is_hex(hex_text(data)),
{
    assert forall|i: int| 0 <= i < hex_text(data).len() implies is_hex_digit(
        #[trigger] hex_text(data)[i],
    ) by {
        let byte = data[i / 2];
        let value = if i % 2 == 0 {
            byte as int / 16
        } else {
            byte as int % 16
        };
        assert(0 <= value < 16);
        assert(hex_text(data)[i] == hex_digit(value));
    }
}

/// A text with its ASCII letters in lower case.
pub open spec fn lower(text: Seq<char>) -> Seq<char> {
    Seq::new(text.len(), |i: int| lower_char(text[i]))
}

/// The upper-case form of an ASCII letter; any other character as it is.
pub open spec fn upper_char(c: char) -> char {
    if 'a' <= c && c <= 'z' {
        (c as u32 - 32) as char
    } else {
        c
    }
}

/// A text with its ASCII letters in upper case.
pub open spec fn upper(text: Seq<char>) -> Seq<char> {
    Seq::new(text.len(), |i: int| upper_char(text[i]))
}

/// A text without the white space that it begins with.
pub open spec fn trim_start(text: Seq<char>) -> Seq<char>
    decreases text.len(),
{
    if text.len() > 0 && is_space(text[0]) {
        trim_start(text.drop_first())
    } else {
        text
    }
}

/// A text without the white space that it ends with.
pub open spec fn trim_end(text: Seq<char>) -> Seq<char>
    decreases text.len(),
{
    if text.len() > 0 && is_space(text.last()) {
        trim_end(text.drop_last())
    } else {
        text
    }
}

/// A text without the white space around it.
pub open spec fn trimmed(text: Seq<char>) -> Seq<char> {
    trim_end(trim_start(text))
}

/// A text without the occurrences of one character that it begins with.
pub open spec fn without_leading(text: Seq<char>, c: char) -> Seq<char>
    decreases text.len(),
{
    if text.len() > 0 && text[0] == c {
        without_leading(text.drop_first(), c)
    } else {
        text
    }
}

/// A text without the occurrences of one character that it ends with.
pub open spec fn without_trailing(text: Seq<char>, c: char) -> Seq<char>
    decreases text.len(),
{
    if text.len() > 0 && text.last() == c {
        without_trailing(text.drop_last(), c)
    } else {
        text
    }
}

/// Whether `part` stands in `text` at position `at`.
pub open spec fn occurs_at(text: Seq<char>, part: Seq<char>, at: int) -> bool {
    &&& 0 <= at
    &&& at + part.len() <= text.len()
    &&& text.subrange(at, at + part.len()) == part
}

/// Whether `part` stands anywhere in `text`.
pub open spec fn contains_text(text: Seq<char>, part: Seq<char>) -> bool {
    exists|at: int| occurs_at(text, part, at)
}

/// The first position from `from` on at which a character stands, or the
/// length of the text.
pub open spec fn find_char(text: Seq<char>, c: char, from: int) -> int
    decreases text.len() - from,
{
    if from < 0 || from >= text.len() {
        text.len() as int
    } else if text[from] == c {
        from
    } else {
        find_char(text, c, from + 1)
    }
}

/// The characters of a text that may be absent.
pub open spec fn optional(text: Option<String>) -> Option<Seq<char>> {
    match text {
        Some(text) => Some(text@),
        None => None,
    }
}

/// A text without the white space around it, unless nothing is left of it.
pub open spec fn kept_text(text: Option<Seq<char>>) -> Option<Seq<char>> {
    match text {
        Some(text) => if trimmed(text).len() > 0 {
            Some(trimmed(text))
        } else {
            None
        },
        None => None,
    }
}

/// The characters of several texts.
pub open spec fn texts(list: Seq<String>) -> Seq<Seq<char>> {
    Seq::new(list.len(), |i: int| list[i]@)
}

/// The characters of a text, or of an error.
pub open spec fn outcome(r: Result<String, String>) -> Result<Seq<char>, Seq<char>> {
    match r {
        Ok(text) => Ok(text@),
        Err(message) => Err(message@),
    }
}

/// A copy of a text that may be absent.
pub fn clone_optional(text: &Option<String>) -> (r: Option<String>)
    ensures
        r == *text,
{
    match text {
        Some(text) => Some(text.clone()),
        None => None,
    }
}

/// The characters of a text.
pub fn chars_of(text: &str) -> (r: Vec<char>)
    ensures
        r@ == text@,
{
    let mut chars: Vec<char> = Vec::new();
    for c in iter: text.chars()
        invariant
            chars@ == iter.seq().take(iter.index() as int),
            iter.seq() == text@,
    {
        chars.push(c);
    }
    chars
}

/// The text that the characters from `start` up to `end` make up.
pub fn text_between(chars: &[char], start: usize, end: usize) -> (r: String)
    requires
        start <= end <= chars@.len(),
    ensures
        r@ == chars@.subrange(start as int, end as int),
{
    let mut text = String::new();
    let mut i: usize = start;
    while i < end
        invariant
            start <= i <= end <= chars@.len(),
            text@ == chars@.subrange(start as int, i as int),
        decreases end - i,
    {
        text.push(chars[i]);
        i += 1;
    }
    text
}

/// The lower-case form of an ASCII letter; any other character as it is.
pub fn to_lower_char(c: char) -> (r: char)
    ensures
        r == lower_char(c),
{
    if 'A' <= c && c <= 'Z' {
        (c as u8 + 32) as char
    } else {
        c
    }
}

/// A text with its ASCII letters in lower case.
pub fn to_lower(text: &str) -> (r: String)
    ensures
        r@ == lower(text@),
{
    let mut result = String::new();
    for c in iter: text.chars()
        invariant
            result@ == lower(iter.seq().take(iter.index() as int)),
            iter.seq() == text@,
    {
        result.push(to_lower_char(c));
    }
    result
}

/// A text with its ASCII letters in upper case.
pub fn to_upper(text: &str) -> (r: String)
    ensures
        r@ == upper(text@),
{
    let mut result = String::new();
    for c in iter: text.chars()
        invariant
            result@ == upper(iter.seq().take(iter.index() as int)),
            iter.seq() == text@,
    {
        if 'a' <= c && c <= 'z' {
            result.push((c as u8 - 32) as char);
        } else {
            result.push(c);
        }
    }
    result
}

/// Whether two texts differ in the case of ASCII letters at most.
pub fn same_ignoring_case(left: &str, right: &str) -> (r: bool)
    ensures
        r == (lower(left@) == lower(right@)),
{
    let ours = chars_of(left);
    let theirs = chars_of(right);
    if ours.len() != theirs.len() {
        assert(lower(left@).len() != lower(right@).len());
        return false;
    }
    let mut i: usize = 0;
    while i < ours.len()
        invariant
            i <= ours@.len(),
            ours@ == left@,
            theirs@ == right@,
            ours@.len() == theirs@.len(),
            forall|j: int| 0 <= j < i ==> lower_char(left@[j]) == lower_char(right@[j]),
        decreases ours@.len() - i,
    {
        if to_lower_char(ours[i]) != to_lower_char(theirs[i]) {
            assert(lower(left@)[i as int] != lower(right@)[i as int]);
            return false;
        }
        i += 1;
    }
    assert(lower(left@) =~= lower(right@));
    true
}

/// A character is a Unicode scalar value.
pub proof fn lemma_char_range(c: char)
    ensures
        0 <= c as int <= 0xd7ff || 0xe000 <= c as int <= 0x10ffff,
{
}

/// Trimming spares a text that white space neither begins nor ends.
pub proof fn lemma_trim_fixed(text: Seq<char>)
    requires
        text.len() > 0 ==> !is_space(text[0]) && !is_space(text.last()),
    ensures
        trimmed(text) == text,
{
}

/// What trimming leaves is a part of the text that white space neither
/// begins nor ends.
pub proof fn lemma_trimmed_edges(text: Seq<char>)
    ensures
        trimmed(text).len() <= text.len(),
        trimmed(text).len() > 0 ==> !is_space(trimmed(text)[0]) && !is_space(trimmed(text).last()),
{
    lemma_trim_start_edge(text);
    lemma_trim_end_edge(trim_start(text));
}

proof fn lemma_trim_start_edge(text: Seq<char>)
    ensures
        trim_start(text).len() <= text.len(),
        trim_start(text).len() > 0 ==> !is_space(trim_start(text)[0]),
    decreases text.len(),
{
    if text.len() > 0 && is_space(text[0]) {
        lemma_trim_start_edge(text.drop_first());
    }
}

proof fn lemma_trim_end_edge(text: Seq<char>)
    ensures
        trim_end(text).len() <= text.len(),
        trim_end(text) == text.take(trim_end(text).len() as int),
        trim_end(text).len() > 0 ==> !is_space(trim_end(text).last()),
    decreases text.len(),
{
    if text.len() > 0 && is_space(text.last()) {
        lemma_trim_end_edge(text.drop_last());
        let kept = trim_end(text);
        assert(text.drop_last().take(kept.len() as int) =~= text.take(kept.len() as int));
    } else {
        assert(text.take(text.len() as int) =~= text);
    }
}

/// Trimming twice is trimming once.
pub proof fn law_trimming_is_idempotent(text: Seq<char>)
    ensures
        trimmed(trimmed(text)) == trimmed(text),
{
    lemma_trimmed_edges(text);
    lemma_trim_fixed(trimmed(text));
}

/// A text without the white space around it.
pub fn trim(text: &str) -> (r: String)
    ensures
        r@ == trimmed(text@),
{
    let chars = chars_of(text);
    let mut start: usize = 0;
    assert(chars@.skip(0) =~= chars@);
    while start < chars.len() && chars[start].is_whitespace()
        invariant
            start <= chars@.len(),
            trim_start(chars@.skip(start as int)) == trim_start(chars@),
        decreases chars@.len() - start,
    {
        assert(chars@.skip(start as int).drop_first() =~= chars@.skip(start + 1));
        start += 1;
    }
    let ghost rest = chars@.skip(start as int);
    assert(trim_start(chars@) == rest);
    let mut end: usize = chars.len();
    assert(chars@.subrange(start as int, end as int) =~= rest);
    while end > start && chars[end - 1].is_whitespace()
        invariant
            start <= end <= chars@.len(),
            trim_end(chars@.subrange(start as int, end as int)) == trim_end(rest),
        decreases end - start,
    {
        assert(chars@.subrange(start as int, end as int).drop_last() =~= chars@.subrange(
            start as int,
            end - 1,
        ));
        end -= 1;
    }
    text_between(&chars, start, end)
}

/// A text without the white space around it, unless nothing is left of it.
pub fn keep_text(text: &Option<String>) -> (r: Option<String>)
    ensures
        optional(r) == kept_text(optional(*text)),
{
    match text {
        Some(text) => {
            let text = trim(text);
            if text.as_str().is_empty() {
                None
            } else {
                Some(text)
            }
        },
        None => None,
    }
}

/// A text without the occurrences of one character that it begins with.
pub fn trim_leading(text: &str, c: char) -> (r: String)
    ensures
        r@ == without_leading(text@, c),
{
    let chars = chars_of(text);
    let mut start: usize = 0;
    assert(chars@.skip(0) =~= chars@);
    while start < chars.len() && chars[start] == c
        invariant
            start <= chars@.len(),
            without_leading(chars@.skip(start as int), c) == without_leading(chars@, c),
        decreases chars@.len() - start,
    {
        assert(chars@.skip(start as int).drop_first() =~= chars@.skip(start + 1));
        start += 1;
    }
    assert(chars@.skip(start as int) =~= chars@.subrange(start as int, chars@.len() as int));
    text_between(&chars, start, chars.len())
}

/// A text without the occurrences of one character that it ends with.
pub fn trim_trailing(text: &str, c: char) -> (r: String)
    ensures
        r@ == without_trailing(text@, c),
{
    let chars = chars_of(text);
    let mut end: usize = chars.len();
    assert(chars@.subrange(0, end as int) =~= chars@);
    while end > 0 && chars[end - 1] == c
        invariant
            end <= chars@.len(),
            without_trailing(chars@.subrange(0, end as int), c) == without_trailing(chars@, c),
        decreases end,
    {
        assert(chars@.subrange(0, end as int).drop_last() =~= chars@.subrange(0, end - 1));
        end -= 1;
    }
    text_between(&chars, 0, end)
}

/// Whether `part` stands among `chars` at position `at`.
pub fn stands_at(chars: &[char], part: &[char], at: usize) -> (r: bool)
    ensures
        r == occurs_at(chars@, part@, at as int),
{
    if part.len() > chars.len() || at > chars.len() - part.len() {
        return false;
    }
    let mut i: usize = 0;
    while i < part.len()
        invariant
            i <= part@.len(),
            at + part@.len() <= chars@.len() <= usize::MAX,
            forall|j: int| 0 <= j < i ==> chars@[at + j] == part@[j],
        decreases part@.len() - i,
    {
        if chars[at + i] != part[i] {
            assert(chars@.subrange(at as int, at + part@.len())[i as int] != part@[i as int]);
            return false;
        }
        i += 1;
    }
    assert(chars@.subrange(at as int, at + part@.len()) =~= part@);
    true
}

/// Whether a text begins with another.
pub fn starts_with(text: &str, part: &str) -> (r: bool)
    ensures
        r == part@.is_prefix_of(text@),
{
    let chars = chars_of(text);
    let part = chars_of(part);
    let found = stands_at(&chars, &part, 0);
    assert(found == part@.is_prefix_of(chars@)) by {
        if part@.len() <= chars@.len() {
            assert(chars@.subrange(0int, 0int + part@.len()) =~= chars@.subrange(0, part@.len() as int));
        }
    }
    found
}

/// Whether a text ends with another.
pub fn ends_with(text: &str, part: &str) -> (r: bool)
    ensures
        r == part@.is_suffix_of(text@),
{
    let chars = chars_of(text);
    let part = chars_of(part);
    if part.len() > chars.len() {
        return false;
    }
    let found = stands_at(&chars, &part, chars.len() - part.len());
    assert(chars@.subrange(
        chars@.len() - part@.len(),
        chars@.len() - part@.len() + part@.len(),
    ) =~= chars@.subrange(chars@.len() - part@.len(), chars@.len() as int));
    found
}

/// Whether `part` stands anywhere in `text`.
pub fn contains(text: &str, part: &str) -> (r: bool)
    ensures
        r == contains_text(text@, part@),
{
    let chars = chars_of(text);
    let wanted = chars_of(part);
    if wanted.len() == 0 {
        assert(occurs_at(text@, part@, 0)) by {
            assert(text@.subrange(0, 0 + part@.len() as int) =~= part@);
        }
        return true;
    }
    let mut at: usize = 0;
    while at < chars.len()
        invariant
            at <= chars@.len(),
            chars@ == text@,
            wanted@ == part@,
            wanted@.len() > 0,
            forall|j: int| 0 <= j < at ==> !occurs_at(text@, part@, j),
        decreases chars@.len() - at,
    {
        if stands_at(&chars, &wanted, at) {
            assert(occurs_at(text@, part@, at as int));
            return true;
        }
        at += 1;
    }
    false
}

/// Whether one character stands anywhere in a text.
pub fn contains_char(text: &str, c: char) -> (r: bool)
    ensures
        r == text@.contains(c),
{
    for other in iter: text.chars()
        invariant
            iter.seq() == text@,
            forall|j: int| 0 <= j < iter.index() ==> text@[j] != c,
    {
        if other == c {
            return true;
        }
    }
    false
}

/// One text after the other.
pub fn joined(left: &str, right: &str) -> (r: String)
    ensures
        r@ == left@ + right@,
{
    let mut text = left.to_string();
    text.append(right);
    text
}

/// The first position is no earlier than where the search begins.
pub proof fn lemma_find_char(text: Seq<char>, c: char, from: int)
    requires
        0 <= from <= text.len(),
    ensures
        from <= find_char(text, c, from) <= text.len(),
        find_char(text, c, from) < text.len() ==> text[find_char(text, c, from)] == c,
        forall|i: int| from <= i < find_char(text, c, from) ==> text[i] != c,
    decreases text.len() - from,
{
    if from < text.len() && text[from] != c {
        lemma_find_char(text, c, from + 1);
    }
}

/// A line without the carriage return that it ends with.
pub open spec fn without_return(line: Seq<char>) -> Seq<char> {
    if line.len() > 0 && line.last() == '\r' {
        line.drop_last()
    } else {
        line
    }
}

/// The lines of a text. What stands behind the last line feed is a line only
/// if it is not empty.
pub open spec fn lines_of(text: Seq<char>) -> Seq<Seq<char>>
    decreases text.len(),
{
    if text.len() == 0 {
        Seq::empty()
    } else {
        let end = find_char(text, '\n', 0);
        if end >= text.len() {
            seq![text]
        } else {
            proof {
                lemma_find_char(text, '\n', 0);
            }
            seq![without_return(text.take(end))] + lines_of(text.skip(end + 1))
        }
    }
}

/// Takes a text apart into its lines.
pub fn lines(text: &str) -> (r: Vec<String>)
    ensures
        texts(r@) == lines_of(text@),
{
    let chars = chars_of(text);
    let mut lines: Vec<String> = Vec::new();
    let mut start: usize = 0;
    assert(chars@.skip(0) =~= chars@);
    assert(texts(lines@) + lines_of(chars@) =~= lines_of(chars@));
    while start < chars.len()
        invariant
            start <= chars@.len(),
            texts(lines@) + lines_of(chars@.skip(start as int)) == lines_of(chars@),
        decreases chars@.len() - start,
    {
        let ghost rest = chars@.skip(start as int);
        let mut end: usize = start;
        while end < chars.len() && chars[end] != '\n'
            invariant
                start <= end <= chars@.len(),
                rest == chars@.skip(start as int),
                find_char(rest, '\n', 0) == find_char(rest, '\n', end - start),
            decreases chars@.len() - end,
        {
            assert(rest[end - start] == chars@[end as int]);
            end += 1;
        }
        let ghost before = lines@;
        if end == chars.len() {
            lines.push(text_between(&chars, start, end));
            assert(chars@.subrange(start as int, end as int) =~= rest);
            assert(texts(lines@) =~= texts(before).push(rest));
            assert(texts(before) + seq![rest] =~= texts(lines@));
            assert(texts(lines@) + lines_of(chars@.skip(chars@.len() as int)) =~= texts(lines@));
            start = end;
        } else {
            assert(rest[end - start] == chars@[end as int]);
            let ghost line = rest.take(end - start);
            assert(line =~= chars@.subrange(start as int, end as int));
            let stop: usize = if end > start && chars[end - 1] == '\r' {
                end - 1
            } else {
                end
            };
            lines.push(text_between(&chars, start, stop));
            assert(chars@.subrange(start as int, stop as int) =~= without_return(line));
            assert(texts(lines@) =~= texts(before).push(without_return(line)));
            assert(rest.skip(end - start + 1) =~= chars@.skip(end + 1));
            assert(texts(before) + (seq![without_return(line)] + lines_of(chars@.skip(end + 1)))
                =~= texts(lines@) + lines_of(chars@.skip(end + 1)));
            start = end + 1;
        }
    }
    assert(texts(lines@) + lines_of(chars@.skip(start as int)) =~= texts(lines@));
    lines
}

/// The first place from one on at which a text stands in another.
pub open spec fn find_text(text: Seq<char>, part: Seq<char>, from: int) -> Option<int>
    decreases text.len() + 1 - from,
{
    if from < 0 || from > text.len() {
        None
    } else if occurs_at(text, part, from) {
        Some(from)
    } else {
        find_text(text, part, from + 1)
    }
}

/// What stands in a text behind the first occurrence of another.
pub open spec fn text_behind(text: Seq<char>, part: Seq<char>) -> Option<Seq<char>> {
    match find_text(text, part, 0) {
        Some(at) => Some(text.skip(at + part.len())),
        None => None,
    }
}

/// What stands in a text behind the first occurrence of another.
pub fn behind(text: &str, part: &str) -> (r: Option<String>)
    ensures
        optional(r) == text_behind(text@, part@),
{
    let chars = chars_of(text);
    let wanted = chars_of(part);
    let mut at: usize = 0;
    while at < chars.len() && !stands_at(&chars, &wanted, at)
        invariant
            at <= chars@.len(),
            chars@ == text@,
            wanted@ == part@,
            find_text(text@, part@, 0) == find_text(text@, part@, at as int),
        decreases chars@.len() - at,
    {
        at += 1;
    }
    if stands_at(&chars, &wanted, at) {
        let start = at + wanted.len();
        assert(chars@.subrange(start as int, chars@.len() as int) =~= text@.skip(start as int));
        Some(text_between(&chars, start, chars.len()))
    } else {
        assert(find_text(text@, part@, at + 1) is None);
        None
    }
}

} // verus!
