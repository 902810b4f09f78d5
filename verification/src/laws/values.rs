//! What is read from the members of JSON objects.

use vstd::prelude::*;
use vstd::utf8::*;

use crate::json::{
    first_number, first_text, given_text, list_in, member_from, member_of, number_in, scalar_in,
    text_in, Json,
};
use crate::number::decimal_value;

verus! {

/// Whether a member is the first with a name.
pub open spec fn is_first_member(
    members: Seq<(String, Json)>,
    name: Seq<char>,
    at: int,
) -> bool {
    &&& 0 <= at < members.len()
    &&& members[at].0@ == name
    &&& forall|j: int| 0 <= j < at ==> (#[trigger] members[j]).0@ != name
}

/// Whether a value is an object whose first member with a name has a value.
pub open spec fn has_member(value: Json, name: Seq<char>, part: Json) -> bool {
    value matches Json::Object(members) && exists|at: int| #[trigger]
        is_first_member(members@, name, at) && members@[at].1 == part
}

/// Whether a value is no object, or has no member with a name.
pub open spec fn lacks_member(value: Json, name: Seq<char>) -> bool {
    value matches Json::Object(members) ==> forall|j: int|
        0 <= j < members@.len() ==> (#[trigger] members@[j]).0@ != name
}

proof fn lemma_member(members: Seq<(String, Json)>, name: Seq<char>, from: int) -> (at: int)
    requires
        0 <= from <= members.len(),
        forall|j: int| 0 <= j < from ==> (#[trigger] members[j]).0@ != name,
    ensures
        member_from(members, name, from) matches Some(part) ==> is_first_member(members, name, at)
            && members[at].1 == part,
        member_from(members, name, from) is None ==> forall|j: int|
            0 <= j < members.len() ==> (#[trigger] members[j]).0@ != name,
    decreases members.len() - from,
{
    if from >= members.len() || members[from].0@ == name {
        from
    } else {
        lemma_member(members, name, from + 1)
    }
}

/// A member of an object is the first one with its name.
pub proof fn law_members_are_found_by_their_names(value: Json, name: Seq<char>, part: Json)
    ensures
        has_member(value, name, part) <==> member_of(value, name) == Some(part),
        lacks_member(value, name) <==> member_of(value, name) is None,
{
    if let Json::Object(members) = value {
        let at = lemma_member(members@, name, 0);
        if has_member(value, name, part) {
            let other = choose|other: int| #[trigger]
                is_first_member(members@, name, other) && members@[other].1 == part;
            if member_of(value, name) is Some {
                if at < other {
                    assert(members@[at].0@ != name);
                }
                if other < at {
                    assert(members@[other].0@ != name);
                }
            } else {
                assert(members@[other].0@ != name);
            }
        }
        if member_of(value, name) is Some {
            assert(is_first_member(members@, name, at));
            assert(members@[at].0@ == name);
        }
    }
}

/// Whether a member is a text, and which.
pub open spec fn member_says(value: Json, name: Seq<char>, text: Seq<char>) -> bool {
    exists|part: String| #[trigger] has_member(value, name, Json::Text(part)) && part@ == text
}

proof fn lemma_member_says(value: Json, name: Seq<char>, text: Seq<char>)
    ensures
        member_says(value, name, text) <==> text_in(member_of(value, name)) == Some(text),
{
    if member_says(value, name, text) {
        let part = choose|part: String| #[trigger]
            has_member(value, name, Json::Text(part)) && part@ == text;
        law_members_are_found_by_their_names(value, name, Json::Text(part));
    }
    if let Some(Json::Text(part)) = member_of(value, name) {
        law_members_are_found_by_their_names(value, name, Json::Text(part));
    }
}

/// A member is read as a text where it is one, and nowhere else.
pub proof fn law_texts_are_read_from_members(value: Json, name: Seq<char>, text: Seq<char>)
    ensures
        text_in(member_of(value, name)) == Some(text) <==> member_says(value, name, text),
{
    lemma_member_says(value, name, text);
}

/// Whether a member gives a number: it is one that fits, or the text of one.
pub open spec fn member_counts(value: Json, name: Seq<char>, number: u64) -> bool {
    exists|part: Json| #[trigger] has_member(value, name, part) && (match part {
        Json::Number(_, whole) => whole == Some(number),
        Json::Text(text) => decimal_value(encode_utf8(text@), u64::MAX as nat) == Some(
            number as nat,
        ),
        _ => false,
    })
}

proof fn lemma_member_counts(value: Json, name: Seq<char>, number: u64)
    ensures
        member_counts(value, name, number) <==> number_in(member_of(value, name)) == Some(number),
{
    if member_counts(value, name, number) {
        let part = choose|part: Json| #[trigger]
            has_member(value, name, part) && (match part {
                Json::Number(_, whole) => whole == Some(number),
                Json::Text(text) => decimal_value(encode_utf8(text@), u64::MAX as nat) == Some(
                    number as nat,
                ),
                _ => false,
            });
        law_members_are_found_by_their_names(value, name, part);
    }
    if let Some(part) = member_of(value, name) {
        law_members_are_found_by_their_names(value, name, part);
    }
}

/// Whether the first of several members that is a text is so, and is not
/// empty.
pub open spec fn says_by_one_of(value: Json, names: Seq<&str>, text: Seq<char>) -> bool {
    text.len() > 0 && exists|k: int|
        0 <= k < names.len() && #[trigger] member_says(value, names[k]@, text) && (forall|
            j: int,
            other: Seq<char>,
        |
            0 <= j < k ==> !#[trigger] member_says(value, names[j]@, other))
}

/// Whether the first of several members that gives a number gives so much.
pub open spec fn counts_by_one_of(value: Json, names: Seq<&str>, number: u64) -> bool {
    exists|k: int|
        0 <= k < names.len() && #[trigger] member_counts(value, names[k]@, number) && (forall|
            j: int,
            other: u64,
        |
            0 <= j < k ==> !#[trigger] member_counts(value, names[j]@, other))
}

/// Whether the first of several members that is a text is empty, or none of
/// them is one.
pub open spec fn says_nothing(value: Json, names: Seq<&str>) -> bool {
    forall|text: Seq<char>| !#[trigger] says_by_one_of(value, names, text)
}

/// Whether none of several members gives a number.
pub open spec fn counts_nothing(value: Json, names: Seq<&str>) -> bool {
    forall|number: u64| !#[trigger] counts_by_one_of(value, names, number)
}

proof fn lemma_first_text(value: Json, names: Seq<&str>, from: int) -> (k: int)
    requires
        0 <= from <= names.len(),
    ensures
        first_text(value, names, from) matches Some(text) ==> from <= k < names.len()
            && member_says(value, names[k]@, text) && (forall|j: int, other: Seq<char>|
            from <= j < k ==> !#[trigger] member_says(value, names[j]@, other)),
        first_text(value, names, from) is None ==> forall|j: int, other: Seq<char>|
            from <= j < names.len() ==> !#[trigger] member_says(value, names[j]@, other),
    decreases names.len() - from,
{
    if from >= names.len() {
        from
    } else {
        assert forall|other: Seq<char>| #[trigger]
            member_says(value, names[from]@, other) <==> text_in(
                member_of(value, names[from]@),
            ) == Some(other) by {
            lemma_member_says(value, names[from]@, other);
        }
        if text_in(member_of(value, names[from]@)) is Some {
            from
        } else {
            lemma_first_text(value, names, from + 1)
        }
    }
}

proof fn lemma_first_number(value: Json, names: Seq<&str>, from: int) -> (k: int)
    requires
        0 <= from <= names.len(),
    ensures
        first_number(value, names, from) matches Some(number) ==> from <= k < names.len()
            && member_counts(value, names[k]@, number) && (forall|j: int, other: u64|
            from <= j < k ==> !#[trigger] member_counts(value, names[j]@, other)),
        first_number(value, names, from) is None ==> forall|j: int, other: u64|
            from <= j < names.len() ==> !#[trigger] member_counts(value, names[j]@, other),
    decreases names.len() - from,
{
    if from >= names.len() {
        from
    } else {
        assert forall|other: u64| #[trigger]
            member_counts(value, names[from]@, other) <==> number_in(
                member_of(value, names[from]@),
            ) == Some(other) by {
            lemma_member_counts(value, names[from]@, other);
        }
        if number_in(member_of(value, names[from]@)) is Some {
            from
        } else {
            lemma_first_number(value, names, from + 1)
        }
    }
}

/// A text is read from the first of several members that is one, unless that
/// is empty.
pub proof fn law_first_text_counts(value: Json, names: Seq<&str>, text: Seq<char>)
    ensures
        given_text(value, names) == Some(text) <==> says_by_one_of(value, names, text),
        given_text(value, names) is None <==> says_nothing(value, names),
{
    let k = lemma_first_text(value, names, 0);
    assert forall|other: Seq<char>| #[trigger]
        says_by_one_of(value, names, other) <==> given_text(value, names) == Some(other) by {
        if says_by_one_of(value, names, other) {
            let place = choose|place: int|
                0 <= place < names.len() && #[trigger] member_says(
                    value,
                    names[place]@,
                    other,
                ) && (forall|j: int, another: Seq<char>|
                    0 <= j < place ==> !#[trigger] member_says(value, names[j]@, another));
            if let Some(found) = first_text(value, names, 0) {
                if k < place {
                    assert(!member_says(value, names[k]@, found));
                }
                if place < k {
                    assert(!member_says(value, names[place]@, other));
                }
                lemma_member_says(value, names[k]@, found);
                lemma_member_says(value, names[k]@, other);
            } else {
                assert(!member_says(value, names[place]@, other));
            }
        }
        if given_text(value, names) == Some(other) {
            assert(member_says(value, names[k]@, other));
        }
    }
    if let Some(found) = given_text(value, names) {
        assert(says_by_one_of(value, names, found));
    }
}

/// A number is read from the first of several members that gives one.
pub proof fn law_first_number_counts(value: Json, names: Seq<&str>, number: u64)
    ensures
        first_number(value, names, 0) == Some(number) <==> counts_by_one_of(value, names, number),
        first_number(value, names, 0) is None <==> counts_nothing(value, names),
{
    let k = lemma_first_number(value, names, 0);
    assert forall|other: u64| #[trigger]
        counts_by_one_of(value, names, other) <==> first_number(value, names, 0) == Some(
            other,
        ) by {
        if counts_by_one_of(value, names, other) {
            let place = choose|place: int|
                0 <= place < names.len() && #[trigger] member_counts(
                    value,
                    names[place]@,
                    other,
                ) && (forall|j: int, another: u64|
                    0 <= j < place ==> !#[trigger] member_counts(value, names[j]@, another));
            if let Some(found) = first_number(value, names, 0) {
                if k < place {
                    assert(!member_counts(value, names[k]@, found));
                }
                if place < k {
                    assert(!member_counts(value, names[place]@, other));
                }
                lemma_member_counts(value, names[k]@, found);
                lemma_member_counts(value, names[k]@, other);
            } else {
                assert(!member_counts(value, names[place]@, other));
            }
        }
        if first_number(value, names, 0) == Some(other) {
            assert(member_counts(value, names[k]@, other));
        }
    }
    if let Some(found) = first_number(value, names, 0) {
        assert(counts_by_one_of(value, names, found));
    }
}

/// A scalar is a text that is not empty, or a number as it is written.
pub proof fn law_scalars_are_texts_and_numbers(text: String, whole: Option<u64>, list: Vec<Json>)
    ensures
        text@.len() > 0 ==> scalar_in(Some(Json::Text(text))) == Some(text@),
        text@.len() == 0 ==> scalar_in(Some(Json::Text(text))) is None,
        scalar_in(Some(Json::Number(text, whole))) == Some(text@),
        scalar_in(None) is None && scalar_in(Some(Json::Null)) is None,
        scalar_in(Some(Json::Bool(true))) is None && scalar_in(Some(Json::List(list))) is None,
        list_in(Some(Json::List(list))) == Some(list@) && list_in(None) is None,
{
}

} // verus!
