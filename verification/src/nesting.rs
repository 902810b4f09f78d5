//! How deeply the elements of an XML document are nested, found out before the
//! document is read: reading takes a part of the stack for each level.

use vstd::prelude::*;

use crate::text::{chars_of, occurs_at, stands_at};

verus! {

/// The deepest nesting of elements that is read. A level takes more than five
/// kilobytes of stack where the reading is not optimised, and a thread with two
/// megabytes of it, as std gives one, holds some three hundred levels.
pub const DEEPEST_NESTING: usize = 256;

/// What a place of a document is within.
#[derive(Clone, Copy, Debug, PartialEq, Eq, Structural)]
pub enum Within {
    Text,
    Comment,
    Cdata,
    Instruction,
    Tag,
    /// A value in a tag, with the quote that it ends with.
    Value(char),
}

/// The greater of two numbers.
pub open spec fn most(left: int, right: int) -> int {
    if left < right {
        right
    } else {
        left
    }
}

/// The number of elements that are open once one is closed.
pub open spec fn one_less(open: int) -> int {
    if open > 0 {
        open - 1
    } else {
        0
    }
}

/// The most elements that are open at once in a document, given what a place
/// is within, how many are open there and the most that were open before it.
/// An element without contents is open within its tag. What looks like a tag in
/// a comment, a CDATA section, a processing instruction or the value of an
/// attribute is none.
pub open spec fn nesting_from(
    text: Seq<char>,
    at: int,
    within: Within,
    open: int,
    deepest: int,
) -> int
    decreases
        if at < text.len() {
            text.len() - at
        } else {
            0
        },
{
    if at < 0 || at >= text.len() {
        deepest
    } else {
        match within {
            Within::Text => if text[at] != '<' {
                nesting_from(text, at + 1, Within::Text, open, deepest)
            } else if occurs_at(text, "<!--"@, at) {
                nesting_from(text, at + 4, Within::Comment, open, deepest)
            } else if occurs_at(text, "<![CDATA["@, at) {
                nesting_from(text, at + 9, Within::Cdata, open, deepest)
            } else if occurs_at(text, "<?"@, at) {
                nesting_from(text, at + 2, Within::Instruction, open, deepest)
            } else if occurs_at(text, "</"@, at) {
                nesting_from(text, at + 2, Within::Text, one_less(open), deepest)
            } else {
                nesting_from(text, at + 1, Within::Tag, open + 1, most(deepest, open + 1))
            },
            Within::Comment => if occurs_at(text, "-->"@, at) {
                nesting_from(text, at + 3, Within::Text, open, deepest)
            } else {
                nesting_from(text, at + 1, Within::Comment, open, deepest)
            },
            Within::Cdata => if occurs_at(text, "]]>"@, at) {
                nesting_from(text, at + 3, Within::Text, open, deepest)
            } else {
                nesting_from(text, at + 1, Within::Cdata, open, deepest)
            },
            Within::Instruction => if occurs_at(text, "?>"@, at) {
                nesting_from(text, at + 2, Within::Text, open, deepest)
            } else {
                nesting_from(text, at + 1, Within::Instruction, open, deepest)
            },
            Within::Tag => if text[at] == '>' {
                nesting_from(
                    text,
                    at + 1,
                    Within::Text,
                    if at > 0 && text[at - 1] == '/' {
                        one_less(open)
                    } else {
                        open
                    },
                    deepest,
                )
            } else if text[at] == '"' || text[at] == '\'' {
                nesting_from(text, at + 1, Within::Value(text[at]), open, deepest)
            } else {
                nesting_from(text, at + 1, Within::Tag, open, deepest)
            },
            Within::Value(quote) => nesting_from(
                text,
                at + 1,
                if text[at] == quote {
                    Within::Tag
                } else {
                    within
                },
                open,
                deepest,
            ),
        }
    }
}

/// How deeply the elements of a document are nested: the most of them that are
/// open at once.
pub open spec fn nesting_of(text: Seq<char>) -> int {
    nesting_from(text, 0, Within::Text, 0, 0)
}

/// How deeply the elements of a document are nested.
pub fn nesting(text: &str) -> (r: usize)
    ensures
        r == nesting_of(text@),
{
    proof {
        reveal_strlit("<!--");
        reveal_strlit("<![CDATA[");
        reveal_strlit("<?");
        reveal_strlit("</");
        reveal_strlit("-->");
        reveal_strlit("]]>");
        reveal_strlit("?>");
    }
    let comment = chars_of("<!--");
    let cdata = chars_of("<![CDATA[");
    let instruction = chars_of("<?");
    let close = chars_of("</");
    let comment_end = chars_of("-->");
    let cdata_end = chars_of("]]>");
    let instruction_end = chars_of("?>");
    let chars = chars_of(text);
    let mut within = Within::Text;
    let mut open: usize = 0;
    let mut deepest: usize = 0;
    let mut at: usize = 0;
    while at < chars.len()
        invariant
            at <= chars@.len(),
            open <= at,
            deepest <= chars@.len(),
            chars@ == text@,
            comment@ == "<!--"@ && comment@.len() == 4,
            cdata@ == "<![CDATA["@ && cdata@.len() == 9,
            instruction@ == "<?"@ && instruction@.len() == 2,
            close@ == "</"@ && close@.len() == 2,
            comment_end@ == "-->"@ && comment_end@.len() == 3,
            cdata_end@ == "]]>"@ && cdata_end@.len() == 3,
            instruction_end@ == "?>"@ && instruction_end@.len() == 2,
            nesting_from(text@, at as int, within, open as int, deepest as int) == nesting_of(
                text@,
            ),
        decreases chars@.len() - at,
    {
        let c = chars[at];
        match within {
            Within::Text => {
                if c != '<' {
                    at += 1;
                } else if stands_at(&chars, &comment, at) {
                    within = Within::Comment;
                    at += 4;
                } else if stands_at(&chars, &cdata, at) {
                    within = Within::Cdata;
                    at += 9;
                } else if stands_at(&chars, &instruction, at) {
                    within = Within::Instruction;
                    at += 2;
                } else if stands_at(&chars, &close, at) {
                    if open > 0 {
                        open -= 1;
                    }
                    at += 2;
                } else {
                    within = Within::Tag;
                    open += 1;
                    if deepest < open {
                        deepest = open;
                    }
                    at += 1;
                }
            },
            Within::Comment => {
                if stands_at(&chars, &comment_end, at) {
                    within = Within::Text;
                    at += 3;
                } else {
                    at += 1;
                }
            },
            Within::Cdata => {
                if stands_at(&chars, &cdata_end, at) {
                    within = Within::Text;
                    at += 3;
                } else {
                    at += 1;
                }
            },
            Within::Instruction => {
                if stands_at(&chars, &instruction_end, at) {
                    within = Within::Text;
                    at += 2;
                } else {
                    at += 1;
                }
            },
            Within::Tag => {
                if c == '>' {
                    if at > 0 && chars[at - 1] == '/' && open > 0 {
                        open -= 1;
                    }
                    within = Within::Text;
                } else if c == '"' || c == '\'' {
                    within = Within::Value(c);
                }
                at += 1;
            },
            Within::Value(quote) => {
                if c == quote {
                    within = Within::Tag;
                }
                at += 1;
            },
        }
    }
    deepest
}

} // verus!
