//! Lines of a text, what stands behind another, and numbers in writing.

use vstd::prelude::*;

use crate::number::{all_digits, decimal_value, digits_value};
use crate::sorting::text_above;
use crate::text::{
    find_char, find_text, lemma_find_char, lines_of, occurs_at, text_behind, without_leading,
    without_trailing,
};

verus! {

/// Whether a text is one line, without a line feed.
pub open spec fn is_line(text: Seq<char>) -> bool {
    forall|i: int| 0 <= i < text.len() ==> #[trigger] text[i] != '\n'
}

/// A line ends with a line feed, or with a carriage return before it. What
/// stands behind the last one is a line as it is, if anything stands there.
pub proof fn law_lines_end_with_line_feeds(line: Seq<char>, rest: Seq<char>)
    requires
        is_line(line),
    ensures
        lines_of(line + seq!['\r', '\n'] + rest) == seq![line] + lines_of(rest),
        line.len() == 0 || line.last() != '\r' ==> lines_of(line + seq!['\n'] + rest) == seq![line]
            + lines_of(rest),
        line.len() > 0 ==> lines_of(line) == seq![line],
        line.len() == 0 ==> lines_of(line).len() == 0,
{
    lemma_first_line(line, rest);
    let longer = line + seq!['\r'];
    lemma_first_line(longer, rest);
    assert(longer.drop_last() =~= line);
    assert(longer + seq!['\n'] + rest =~= line + seq!['\r', '\n'] + rest);
    lemma_find_char(line, '\n', 0);
}

proof fn lemma_first_line(line: Seq<char>, rest: Seq<char>)
    requires
        is_line(line),
    ensures
        lines_of(line + seq!['\n'] + rest) == seq![
            if line.len() > 0 && line.last() == '\r' {
                line.drop_last()
            } else {
                line
            },
        ] + lines_of(rest),
{
    let text = line + seq!['\n'] + rest;
    lemma_find_char(text, '\n', 0);
    let end = find_char(text, '\n', 0);
    assert(text[line.len() as int] == '\n');
    if end < line.len() {
        assert(text[end] == line[end]);
    }
    assert(text.take(end) =~= line);
    assert(text.skip(end + 1) =~= rest);
}

/// Whether a text stands in another at no place before one.
pub open spec fn stands_nowhere_before(text: Seq<char>, part: Seq<char>, before: int) -> bool {
    forall|at: int| 0 <= at < before ==> !#[trigger] occurs_at(text, part, at)
}

/// Whether a text stands in another at no place.
pub open spec fn stands_nowhere(text: Seq<char>, part: Seq<char>) -> bool {
    forall|at: int| !#[trigger] occurs_at(text, part, at)
}

/// What stands behind a text is all that comes after its first occurrence;
/// where it does not stand, nothing stands behind it.
pub proof fn law_text_behind_its_first_occurrence(
    before: Seq<char>,
    part: Seq<char>,
    after: Seq<char>,
)
    ensures
        stands_nowhere_before(before + part + after, part, before.len() as int) ==> text_behind(
            before + part + after,
            part,
        ) == Some(after),
        stands_nowhere(before, part) ==> text_behind(before, part) is None,
{
    let text = before + part + after;
    let at = before.len() as int;
    if stands_nowhere_before(text, part, at) {
        assert(text.subrange(at, at + part.len()) =~= part);
        assert(occurs_at(text, part, at));
        lemma_find_text(text, part, 0, at);
        assert(text.skip(at + part.len()) =~= after);
    }
    if stands_nowhere(before, part) {
        lemma_find_no_text(before, part, 0);
    }
}

proof fn lemma_find_text(text: Seq<char>, part: Seq<char>, from: int, at: int)
    requires
        0 <= from <= at,
        occurs_at(text, part, at),
        stands_nowhere_before(text, part, at),
    ensures
        find_text(text, part, from) == Some(at),
    decreases at - from,
{
    if from < at {
        assert(!occurs_at(text, part, from));
        lemma_find_text(text, part, from + 1, at);
    }
}

proof fn lemma_find_no_text(text: Seq<char>, part: Seq<char>, from: int)
    requires
        0 <= from,
        stands_nowhere(text, part),
    ensures
        find_text(text, part, from) is None,
    decreases text.len() + 1 - from,
{
    if from <= text.len() {
        assert(!occurs_at(text, part, from));
        lemma_find_no_text(text, part, from + 1);
    }
}

/// Whether a text is one character, however often.
pub open spec fn is_only(text: Seq<char>, c: char) -> bool {
    forall|i: int| 0 <= i < text.len() ==> #[trigger] text[i] == c
}

/// A character is taken off a text as often as it stands at its beginning, or
/// at its end, and nothing else is.
pub proof fn law_one_character_is_taken_off(edge: Seq<char>, text: Seq<char>, c: char)
    requires
        is_only(edge, c),
    ensures
        text.len() == 0 || text[0] != c ==> without_leading(edge + text, c) == text,
        text.len() == 0 || text.last() != c ==> without_trailing(text + edge, c) == text,
    decreases edge.len(),
{
    if edge.len() == 0 {
        assert(edge + text =~= text);
        assert(text + edge =~= text);
    } else {
        law_one_character_is_taken_off(edge.drop_first(), text, c);
        assert((edge + text).drop_first() =~= edge.drop_first() + text);
        assert((text + edge).drop_last() =~= text + edge.drop_first()) by {
            assert(edge.drop_last() =~= edge.drop_first());
        }
        assert((edge + text)[0] == c);
        assert((text + edge).last() == c);
    }
}

/// Whether two texts are the same up to a place.
pub open spec fn same_up_to(left: Seq<char>, right: Seq<char>, place: int) -> bool {
    &&& 0 <= place <= left.len()
    &&& place <= right.len()
    &&& forall|i: int| 0 <= i < place ==> #[trigger] left[i] == right[i]
}

/// Of two texts, the one with the higher character in the first place in which
/// they differ is above, and else the longer one.
pub proof fn law_texts_are_ordered_by_characters(left: Seq<char>, right: Seq<char>, place: int)
    requires
        same_up_to(left, right, place),
    ensures
        place < left.len() && place < right.len() && left[place] != right[place] ==> text_above(
            left,
            right,
        ) == (left[place] > right[place]),
        place == right.len() ==> text_above(left, right) == (left.len() > right.len()),
        place == left.len() ==> !text_above(left, right),
    decreases place,
{
    if place > 0 {
        assert(left[0] == right[0]);
        assert forall|i: int| 0 <= i < place - 1 implies #[trigger] left.skip(1)[i]
            == right.skip(1)[i] by {
            assert(left[i + 1] == right[i + 1]);
        }
        law_texts_are_ordered_by_characters(left.skip(1), right.skip(1), place - 1);
    }
}

/// Digits are a number, with or without a plus sign before them, unless it is
/// above what is allowed; nothing else is a number.
pub proof fn law_numbers_are_digits(text: Seq<u8>, max: nat)
    ensures
        text.len() > 0 && all_digits(text) && digits_value(text) <= max ==> decimal_value(
            text,
            max,
        ) == Some(digits_value(text)) && decimal_value(seq![0x2bu8] + text, max) == Some(
            digits_value(text),
        ),
        text.len() > 0 && all_digits(text) && digits_value(text) > max ==> decimal_value(
            text,
            max,
        ) is None && decimal_value(seq![0x2bu8] + text, max) is None,
        text.len() == 0 ==> decimal_value(text, max) is None,
        !all_digits(text) && text[0] != 0x2b ==> decimal_value(text, max) is None,
        !all_digits(text) ==> decimal_value(seq![0x2bu8] + text, max) is None,
{
    assert((seq![0x2bu8] + text).drop_first() =~= text);
    if text.len() > 0 && all_digits(text) {
        assert(text[0] != 0x2b);
    }
    if text.len() == 0 {
        assert(all_digits(text));
    }
}

/// The last digit of a number counts once, and what stands before it ten times
/// as much.
pub proof fn law_digits_count_by_their_place(text: Seq<u8>, digit: u8)
    requires
        0x30 <= digit <= 0x39,
    ensures
        digits_value(text.push(digit)) == 10 * digits_value(text) + (digit - 0x30),
        digits_value(Seq::empty()) == 0,
{
    assert(text.push(digit).drop_last() =~= text);
}

} // verus!
