//! JSON values as the library reads them.

use vstd::prelude::*;
use vstd::string::*;
use vstd::utf8::*;

use crate::number::{decimal_value, parse_decimal};
use crate::outside::same_text;
use crate::text::optional;

verus! {

/// A JSON value. A number has its text, and its value where that is a whole
/// number that fits.
#[derive(Debug)]
pub enum Json {
    Null,
    Bool(bool),
    Number(String, Option<u64>),
    Text(String),
    List(Vec<Json>),
    Object(Vec<(String, Json)>),
}

/// The value of the first member with a name, from a member on.
pub open spec fn member_from(members: Seq<(String, Json)>, name: Seq<char>, from: int) -> Option<
    Json,
>
    decreases members.len() - from,
{
    if from < 0 || from >= members.len() {
        None
    } else if members[from].0@ == name {
        Some(members[from].1)
    } else {
        member_from(members, name, from + 1)
    }
}

/// The member of an object with a name.
pub open spec fn member_of(value: Json, name: Seq<char>) -> Option<Json> {
    match value {
        Json::Object(members) => member_from(members@, name, 0),
        _ => None,
    }
}

/// The characters of a value that is a text.
pub open spec fn text_in(value: Option<Json>) -> Option<Seq<char>> {
    match value {
        Some(Json::Text(text)) => Some(text@),
        _ => None,
    }
}

/// The elements of a value that is a list.
pub open spec fn list_in(value: Option<Json>) -> Option<Seq<Json>> {
    match value {
        Some(Json::List(list)) => Some(list@),
        _ => None,
    }
}

/// The number that a value is, or gives as a text.
pub open spec fn number_in(value: Option<Json>) -> Option<u64> {
    match value {
        Some(Json::Number(_, unsigned)) => unsigned,
        Some(Json::Text(text)) => match decimal_value(encode_utf8(text@), u64::MAX as nat) {
            Some(number) => Some(number as u64),
            None => None,
        },
        _ => None,
    }
}

/// The text of the first member that is one, by several names.
pub open spec fn first_text(value: Json, names: Seq<&str>, from: int) -> Option<Seq<char>>
    decreases names.len() - from,
{
    if from < 0 || from >= names.len() {
        None
    } else {
        match text_in(member_of(value, names[from]@)) {
            Some(text) => Some(text),
            None => first_text(value, names, from + 1),
        }
    }
}

/// The text of the first member that is one, by several names, unless it is
/// empty.
pub open spec fn given_text(value: Json, names: Seq<&str>) -> Option<Seq<char>> {
    match first_text(value, names, 0) {
        Some(text) => if text.len() > 0 {
            Some(text)
        } else {
            None
        },
        None => None,
    }
}

/// The number of the first member that gives one, by several names.
pub open spec fn first_number(value: Json, names: Seq<&str>, from: int) -> Option<u64>
    decreases names.len() - from,
{
    if from < 0 || from >= names.len() {
        None
    } else {
        match number_in(member_of(value, names[from]@)) {
            Some(number) => Some(number),
            None => first_number(value, names, from + 1),
        }
    }
}

/// A text that is not empty, or a number as it is written.
pub open spec fn scalar_in(value: Option<Json>) -> Option<Seq<char>> {
    match value {
        Some(Json::Text(text)) => if text@.len() > 0 {
            Some(text@)
        } else {
            None
        },
        Some(Json::Number(text, _)) => Some(text@),
        _ => None,
    }
}

impl Json {
    /// The member of an object with a name.
    pub fn member(&self, name: &str) -> (r: Option<&Json>)
        ensures
            match r {
                Some(value) => member_of(*self, name@) == Some(*value),
                None => member_of(*self, name@) is None,
            },
    {
        match self {
            Json::Object(members) => {
                let mut i: usize = 0;
                while i < members.len()
                    invariant
                        i <= members@.len(),
                        *self matches Json::Object(all) && all == *members,
                        member_from(members@, name@, 0) == member_from(members@, name@, i as int),
                    decreases members@.len() - i,
                {
                    if same_text(&members[i].0, name) {
                        return Some(&members[i].1);
                    }
                    i += 1;
                }
                None
            },
            _ => None,
        }
    }

    /// The text of a member.
    pub fn member_text(&self, name: &str) -> (r: Option<String>)
        ensures
            optional(r) == text_in(member_of(*self, name@)),
    {
        match self.member(name) {
            Some(Json::Text(text)) => Some(text.clone()),
            _ => None,
        }
    }

    /// Whether the text of a member is a given one.
    pub fn member_is(&self, name: &str, wanted: &str) -> (r: bool)
        ensures
            r == (text_in(member_of(*self, name@)) == Some(wanted@)),
    {
        match self.member(name) {
            Some(Json::Text(text)) => same_text(text, wanted),
            _ => false,
        }
    }

    /// Whether a member is true.
    pub fn member_is_true(&self, name: &str) -> (r: bool)
        ensures
            r == (member_of(*self, name@) == Some(Json::Bool(true))),
    {
        match self.member(name) {
            Some(Json::Bool(flag)) => *flag,
            _ => false,
        }
    }
}

fn number_of(value: Option<&Json>) -> (r: Option<u64>)
    ensures
        r == number_in(
            match value {
                Some(value) => Some(*value),
                None => None,
            },
        ),
{
    match value {
        Some(Json::Number(_, unsigned)) => *unsigned,
        Some(Json::Text(text)) => parse_decimal(text.as_str().as_bytes(), u64::MAX),
        _ => None,
    }
}

/// Reads the text of the first member that is one, by several names, unless
/// it is empty.
pub fn string_value(value: &Json, names: &[&str]) -> (r: Option<String>)
    ensures
        optional(r) == given_text(*value, names@),
{
    let mut i: usize = 0;
    while i < names.len()
        invariant
            i <= names@.len(),
            first_text(*value, names@, 0) == first_text(*value, names@, i as int),
        decreases names@.len() - i,
    {
        if let Some(text) = value.member_text(names[i]) {
            return if text.as_str().is_empty() {
                None
            } else {
                Some(text)
            };
        }
        i += 1;
    }
    None
}

/// Reads the number of the first member that gives one, by several names.
pub fn u64_value(value: &Json, names: &[&str]) -> (r: Option<u64>)
    ensures
        r == first_number(*value, names@, 0),
{
    let mut i: usize = 0;
    while i < names.len()
        invariant
            i <= names@.len(),
            first_number(*value, names@, 0) == first_number(*value, names@, i as int),
        decreases names@.len() - i,
    {
        if let Some(number) = number_of(value.member(names[i])) {
            return Some(number);
        }
        i += 1;
    }
    None
}

/// Reads a text that is not empty, or a number as it is written.
pub fn scalar_string(value: Option<&Json>) -> (r: Option<String>)
    ensures
        optional(r) == scalar_in(
            match value {
                Some(value) => Some(*value),
                None => None,
            },
        ),
{
    match value {
        Some(Json::Text(text)) => if text.as_str().is_empty() {
            None
        } else {
            Some(text.clone())
        },
        Some(Json::Number(text, _)) => Some(text.clone()),
        _ => None,
    }
}

} // verus!
