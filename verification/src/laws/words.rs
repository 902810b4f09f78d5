//! What trimming and comparing texts comes to.

use vstd::prelude::*;

use crate::outside::is_space;
use crate::text::{
    contains_text, lower, lower_char, occurs_at, trim_end, trim_start, trimmed, upper, upper_char,
};

verus! {

/// Whether two characters are the same but for the case of an ASCII letter.
pub open spec fn same_letter(left: char, right: char) -> bool {
    ||| left == right
    ||| 'A' <= left && left <= 'Z' && right as int == left as int + 32
    ||| 'A' <= right && right <= 'Z' && left as int == right as int + 32
}

/// Whether two texts are the same but for the case of ASCII letters.
pub open spec fn same_but_case(left: Seq<char>, right: Seq<char>) -> bool {
    &&& left.len() == right.len()
    &&& forall|i: int| 0 <= i < left.len() ==> same_letter(#[trigger] left[i], right[i])
}

/// Whether a text stands in another at a place, but for the case of ASCII
/// letters.
pub open spec fn stands_but_case(text: Seq<char>, part: Seq<char>, at: int) -> bool {
    &&& 0 <= at
    &&& at + part.len() <= text.len()
    &&& same_but_case(text.subrange(at, at + part.len()), part)
}

/// Whether some of a text, from one place to another, is all of it but for
/// white space before and behind, of which it has none at its edges.
pub open spec fn is_core(text: Seq<char>, start: int, end: int) -> bool {
    &&& 0 <= start <= end <= text.len()
    &&& forall|i: int| 0 <= i < start ==> is_space(#[trigger] text[i])
    &&& forall|i: int| end <= i < text.len() ==> is_space(#[trigger] text[i])
    &&& start < end ==> !is_space(text[start]) && !is_space(text[end - 1])
}

/// A letter and its counterpart in the other case have the same lower case,
/// and no other two characters have.
proof fn lemma_same_letter(left: char, right: char)
    ensures
        lower_char(left) == lower_char(right) <==> same_letter(left, right),
{
    assert('A' <= left && left <= 'Z' ==> lower_char(left) as int == left as int + 32);
    assert('A' <= right && right <= 'Z' ==> lower_char(right) as int == right as int + 32);
}

/// Texts have the same lower case where they are the same but for the case of
/// ASCII letters, and nowhere else.
pub proof fn law_lower_case_tells_the_same_texts(left: Seq<char>, right: Seq<char>)
    ensures
        lower(left) == lower(right) <==> same_but_case(left, right),
{
    if lower(left) == lower(right) {
        assert(lower(left).len() == left.len());
        assert(lower(right).len() == right.len());
        assert forall|i: int| 0 <= i < left.len() implies same_letter(
            #[trigger] left[i],
            right[i],
        ) by {
            assert(lower(left)[i] == lower(right)[i]);
            lemma_same_letter(left[i], right[i]);
        }
    }
    if same_but_case(left, right) {
        assert forall|i: int| 0 <= i < left.len() implies lower(left)[i] == lower(right)[i] by {
            assert(same_letter(left[i], right[i]));
            lemma_same_letter(left[i], right[i]);
        }
        assert(lower(left) =~= lower(right));
    }
}

/// A word without capital letters is its own lower case.
pub proof fn lemma_lower_word(word: Seq<char>)
    requires
        forall|i: int| 0 <= i < word.len() ==> !('A' <= #[trigger] word[i] && word[i] <= 'Z'),
    ensures
        lower(word) == word,
{
    assert(lower(word) =~= word);
}

/// Lower case of a text that is the lower case of itself is compared as it
/// stands.
pub proof fn lemma_lower_is(text: Seq<char>, word: Seq<char>)
    requires
        lower(word) == word,
    ensures
        lower(text) == word <==> same_but_case(text, word),
{
    law_lower_case_tells_the_same_texts(text, word);
}

/// A word in lower case stands in the lower case of a text where it stands in
/// the text but for the case of ASCII letters.
pub proof fn law_words_are_found_in_any_case(text: Seq<char>, word: Seq<char>)
    requires
        lower(word) == word,
    ensures
        contains_text(lower(text), word) <==> exists|at: int| stands_but_case(text, word, at),
{
    assert forall|at: int| occurs_at(lower(text), word, at) <==> stands_but_case(
        text,
        word,
        at,
    ) by {
        if 0 <= at && at + word.len() <= text.len() {
            let part = text.subrange(at, at + word.len());
            assert(lower(part) =~= lower(text).subrange(at, at + word.len()));
            lemma_lower_is(part, word);
        }
    }
    if contains_text(lower(text), word) {
        let at = choose|at: int| occurs_at(lower(text), word, at);
        assert(stands_but_case(text, word, at));
    }
    if exists|at: int| stands_but_case(text, word, at) {
        let at = choose|at: int| stands_but_case(text, word, at);
        assert(occurs_at(lower(text), word, at));
    }
}

proof fn lemma_trim_start(text: Seq<char>) -> (start: int)
    ensures
        0 <= start <= text.len(),
        trim_start(text) == text.skip(start),
        forall|i: int| 0 <= i < start ==> is_space(#[trigger] text[i]),
        start < text.len() ==> !is_space(text[start]),
    decreases text.len(),
{
    if text.len() > 0 && is_space(text[0]) {
        let rest = text.drop_first();
        let start = lemma_trim_start(rest);
        assert(rest.skip(start) =~= text.skip(start + 1));
        assert forall|i: int| 0 <= i < start + 1 implies is_space(#[trigger] text[i]) by {
            if i > 0 {
                assert(rest[i - 1] == text[i]);
            }
        }
        start + 1
    } else {
        assert(text.skip(0) =~= text);
        0
    }
}

proof fn lemma_trim_end(text: Seq<char>) -> (end: int)
    ensures
        0 <= end <= text.len(),
        trim_end(text) == text.take(end),
        forall|i: int| end <= i < text.len() ==> is_space(#[trigger] text[i]),
        end > 0 ==> !is_space(text[end - 1]),
    decreases text.len(),
{
    if text.len() > 0 && is_space(text.last()) {
        let rest = text.drop_last();
        let end = lemma_trim_end(rest);
        assert(rest.take(end) =~= text.take(end));
        assert forall|i: int| end <= i < text.len() implies is_space(#[trigger] text[i]) by {
            if i < rest.len() {
                assert(rest[i] == text[i]);
            }
        }
        end
    } else {
        assert(text.take(text.len() as int) =~= text);
        text.len() as int
    }
}

/// Trimming takes the white space around a text and nothing else.
pub proof fn law_trimming_takes_white_space_only(text: Seq<char>)
    ensures
        exists|start: int, end: int| #[trigger]
            is_core(text, start, end) && trimmed(text) == text.subrange(start, end),
        forall|start: int, end: int| #[trigger]
            is_core(text, start, end) && start < end ==> trimmed(text) == text.subrange(
                start,
                end,
            ),
{
    let start = lemma_trim_start(text);
    let rest = text.skip(start);
    let end = lemma_trim_end(rest);
    assert(rest.take(end) =~= text.subrange(start, start + end));
    assert forall|i: int| start + end <= i < text.len() implies is_space(#[trigger] text[i]) by {
        assert(rest[i - start] == text[i]);
    }
    if end > 0 {
        assert(rest[end - 1] == text[start + end - 1]);
    }
    assert(is_core(text, start, start + end));
    assert forall|first: int, last: int| #[trigger]
        is_core(text, first, last) && first < last implies trimmed(text) == text.subrange(
        first,
        last,
    ) by {
        if start < first {
            assert(is_space(text[start]));
        }
        if first < start {
            assert(is_space(text[first]));
        }
        if start + end < last {
            assert(is_space(text[last - 1]));
        }
        if last < start + end {
            assert(is_space(text[start + end - 1]));
        }
    }
}

/// Upper case tells the same letters, and leaves none in lower case.
pub proof fn law_upper_case_has_no_lower_letters(text: Seq<char>)
    ensures
        same_but_case(upper(text), text),
        forall|i: int| 0 <= i < upper(text).len() ==> !('a' <= #[trigger] upper(text)[i] <= 'z'),
{
    assert forall|i: int| 0 <= i < text.len() implies same_letter(
        #[trigger] upper(text)[i],
        text[i],
    ) by {
        assert(upper(text)[i] == upper_char(text[i]));
    }
}

} // verus!
