//! How deeply the elements of a document are nested.

use vstd::prelude::*;
use vstd::string::*;

use crate::nesting::{most, nesting_from, nesting_of, Within};
use crate::outside::xml_nodes_of;
use crate::text::occurs_at;
use crate::xml::document_of;

verus! {

/// A value of an attribute, with what stands before it and the quote around it.
pub struct Quoted {
    pub before: Seq<char>,
    pub quote: char,
    pub value: Seq<char>,
}

/// A part of a document: words, a comment, a CDATA section, an instruction, an
/// element without contents, or one with contents. A tag is its quoted values
/// and what stands behind the last of them.
pub enum Markup {
    Words(Seq<char>),
    Comment(Seq<char>),
    Cdata(Seq<char>),
    Instruction(Seq<char>),
    Empty(Seq<Quoted>, Seq<char>),
    Element(Seq<Quoted>, Seq<char>, Seq<Markup>, Seq<char>),
}

/// What stands in a tag.
pub open spec fn tag_text(values: Seq<Quoted>, rest: Seq<char>) -> Seq<char>
    decreases values.len(),
{
    if values.len() == 0 {
        rest
    } else {
        values[0].before + seq![values[0].quote] + values[0].value + seq![values[0].quote]
            + tag_text(values.drop_first(), rest)
    }
}

/// A part of a document in writing.
pub open spec fn written(part: Markup) -> Seq<char>
    decreases part,
{
    match part {
        Markup::Words(words) => words,
        Markup::Comment(words) => "<!--"@ + words + "-->"@,
        Markup::Cdata(words) => "<![CDATA["@ + words + "]]>"@,
        Markup::Instruction(words) => "<?"@ + words + "?>"@,
        Markup::Empty(values, rest) => seq!['<'] + tag_text(values, rest) + seq!['/', '>'],
        Markup::Element(values, rest, contents, name) => seq!['<'] + tag_text(values, rest) + seq![
            '>',
        ] + written_all(contents) + "</"@ + (name + seq!['>']),
    }
}

/// Parts of a document in writing, one behind the other.
pub open spec fn written_all(parts: Seq<Markup>) -> Seq<char>
    decreases parts,
{
    if parts.len() == 0 {
        Seq::empty()
    } else {
        written(parts[0]) + written_all(parts.drop_first())
    }
}

/// Whether a text has none of some characters.
pub open spec fn has_none_of(text: Seq<char>, some: Seq<char>) -> bool {
    forall|i: int| 0 <= i < text.len() ==> !some.contains(#[trigger] text[i])
}

/// Whether words end where an end mark says, and not before.
pub open spec fn ends_first_with(words: Seq<char>, mark: Seq<char>) -> bool {
    forall|at: int| 0 <= at < words.len() ==> !#[trigger] occurs_at(words + mark, mark, at)
}

/// Whether what stands in a tag is a tag: it begins like a name, a quote ends
/// the value that it begins, and it ends with no slash.
pub open spec fn is_tag(values: Seq<Quoted>, rest: Seq<char>) -> bool {
    let text = tag_text(values, rest);
    &&& text.len() > 0
    &&& has_none_of(seq![text[0]], seq!['!', '?', '/'])
    &&& text.last() != '/'
    &&& has_none_of(rest, seq!['>', '"', '\''])
    &&& forall|i: int|
        0 <= i < values.len() ==> {
            &&& has_none_of((#[trigger] values[i]).before, seq!['>', '"', '\''])
            &&& values[i].quote == '"' || values[i].quote == '\''
            &&& has_none_of(values[i].value, seq![values[i].quote])
        }
}

/// Whether a part of a document is well formed.
pub open spec fn is_part(part: Markup) -> bool
    decreases part,
{
    match part {
        Markup::Words(words) => has_none_of(words, seq!['<']),
        Markup::Comment(words) => ends_first_with(words, "-->"@),
        Markup::Cdata(words) => ends_first_with(words, "]]>"@),
        Markup::Instruction(words) => ends_first_with(words, "?>"@),
        Markup::Empty(values, rest) => is_tag(values, rest),
        Markup::Element(values, rest, contents, name) => is_tag(values, rest) && has_none_of(
            name,
            seq!['<'],
        ) && are_parts(contents),
    }
}

/// Whether parts of a document are well formed.
pub open spec fn are_parts(parts: Seq<Markup>) -> bool
    decreases parts,
{
    parts.len() == 0 || (is_part(parts[0]) && are_parts(parts.drop_first()))
}

/// How deep a part of a document is: an element is one deeper than what is in
/// it.
pub open spec fn depth(part: Markup) -> int
    decreases part,
{
    match part {
        Markup::Empty(_, _) => 1,
        Markup::Element(_, _, contents, _) => 1 + depth_of_all(contents),
        _ => 0,
    }
}

/// How deep the deepest of some parts is.
pub open spec fn depth_of_all(parts: Seq<Markup>) -> int
    decreases parts,
{
    if parts.len() == 0 {
        0
    } else if depth(parts[0]) > depth_of_all(parts.drop_first()) {
        depth(parts[0])
    } else {
        depth_of_all(parts.drop_first())
    }
}

/// The nesting of a document is that of its deepest element.
pub proof fn law_nesting_is_that_of_the_deepest_element(parts: Seq<Markup>)
    requires
        are_parts(parts),
    ensures
        nesting_of(written_all(parts)) == depth_of_all(parts),
{
    let text = written_all(parts);
    assert(text.subrange(0, 0 + text.len() as int) =~= text);
    lemma_parts(text, 0, parts, 0, 0);
    lemma_depth(parts);
}

/// A document is read where its elements are nested in no more than 256
/// levels, and not where one is deeper.
pub proof fn law_deep_documents_are_not_read(parts: Seq<Markup>)
    requires
        are_parts(parts),
    ensures
        depth_of_all(parts) <= 256 ==> document_of(written_all(parts)) == xml_nodes_of(
            written_all(parts),
        ),
        depth_of_all(parts) > 256 ==> document_of(written_all(parts)) is None,
{
    law_nesting_is_that_of_the_deepest_element(parts);
}

proof fn lemma_depth(parts: Seq<Markup>)
    ensures
        depth_of_all(parts) >= 0,
    decreases parts,
{
    if parts.len() > 0 {
        lemma_depth(parts.drop_first());
        if let Markup::Element(_, _, contents, _) = parts[0] {
            lemma_depth(contents);
        }
    }
}

proof fn lemma_split(text: Seq<char>, at: int, left: Seq<char>, right: Seq<char>)
    requires
        occurs_at(text, left + right, at),
    ensures
        occurs_at(text, left, at),
        occurs_at(text, right, at + left.len()),
        forall|i: int| 0 <= i < left.len() ==> text[at + i] == left[i],
{
    let whole = text.subrange(at, at + (left + right).len());
    assert forall|i: int| 0 <= i < left.len() implies text[at + i] == left[i] by {
        assert(whole[i] == (left + right)[i]);
    }
    assert forall|i: int| 0 <= i < right.len() implies text[at + left.len() + i] == right[i] by {
        assert(whole[left.len() + i] == (left + right)[left.len() + i]);
    }
    assert(text.subrange(at, at + left.len()) =~= left);
    assert(text.subrange(at + left.len(), at + left.len() + right.len()) =~= right);
}

proof fn lemma_at(text: Seq<char>, at: int, part: Seq<char>)
    requires
        occurs_at(text, part, at),
    ensures
        forall|i: int| 0 <= i < part.len() ==> text[at + i] == #[trigger] part[i],
{
    let whole = text.subrange(at, at + part.len());
    assert forall|i: int| 0 <= i < part.len() implies text[at + i] == #[trigger] part[i] by {
        assert(whole[i] == part[i]);
    }
}

proof fn lemma_words(text: Seq<char>, at: int, words: Seq<char>, open: int, deepest: int)
    requires
        occurs_at(text, words, at),
        has_none_of(words, seq!['<']),
    ensures
        nesting_from(text, at, Within::Text, open, deepest) == nesting_from(
            text,
            at + words.len(),
            Within::Text,
            open,
            deepest,
        ),
    decreases words.len(),
{
    if words.len() > 0 {
        lemma_at(text, at, words);
        assert(text[at + 0] == words[0]);
        assert(seq!['<'][0] == '<');
        assert(seq!['<'].contains('<'));
        assert(words =~= seq![words[0]] + words.drop_first());
        lemma_split(text, at, seq![words[0]], words.drop_first());
        assert forall|i: int| 0 <= i < words.drop_first().len() implies !seq!['<'].contains(
            #[trigger] words.drop_first()[i],
        ) by {
            assert(words.drop_first()[i] == words[i + 1]);
        }
        lemma_words(text, at + 1, words.drop_first(), open, deepest);
    }
}

/// Within what an end mark ends, the nesting stays until it is there.
proof fn lemma_until(
    text: Seq<char>,
    at: int,
    words: Seq<char>,
    mark: Seq<char>,
    within: Within,
    open: int,
    deepest: int,
)
    requires
        occurs_at(text, words + mark, at),
        ends_first_with(words, mark),
        mark.len() > 0,
        (within is Comment && mark == "-->"@) || (within is Cdata && mark == "]]>"@) || (
        within is Instruction && mark == "?>"@),
    ensures
        nesting_from(text, at, within, open, deepest) == nesting_from(
            text,
            at + words.len() + mark.len(),
            Within::Text,
            open,
            deepest,
        ),
    decreases words.len(),
{
    reveal_strlit("-->");
    reveal_strlit("]]>");
    reveal_strlit("?>");
    lemma_split(text, at, words, mark);
    lemma_at(text, at, words + mark);
    if words.len() == 0 {
        assert(at + words.len() == at);
    } else {
        let rest = words.drop_first();
        assert(words + mark =~= seq![words[0]] + (rest + mark));
        lemma_split(text, at, seq![words[0]], rest + mark);
        assert(!occurs_at(words + mark, mark, 0));
        if occurs_at(text, mark, at) {
            lemma_at(text, at, mark);
            assert((words + mark).subrange(0, mark.len() as int) =~= mark) by {
                assert forall|i: int| 0 <= i < mark.len() implies (words + mark)[i] == mark[i] by {
                    assert(text[at + i] == (words + mark)[i]);
                }
            }
            assert(occurs_at(words + mark, mark, 0));
        }
        assert forall|k: int| 0 <= k < rest.len() implies !#[trigger] occurs_at(
            rest + mark,
            mark,
            k,
        ) by {
            if occurs_at(rest + mark, mark, k) {
                assert((words + mark).subrange(k + 1, k + 1 + mark.len()) =~= (rest
                    + mark).subrange(k, k + mark.len()));
                assert(occurs_at(words + mark, mark, k + 1));
            }
        }
        lemma_until(text, at + 1, rest, mark, within, open, deepest);
    }
}

proof fn lemma_plain_tag(text: Seq<char>, at: int, plain: Seq<char>, open: int, deepest: int)
    requires
        occurs_at(text, plain, at),
        has_none_of(plain, seq!['>', '"', '\'']),
    ensures
        nesting_from(text, at, Within::Tag, open, deepest) == nesting_from(
            text,
            at + plain.len(),
            Within::Tag,
            open,
            deepest,
        ),
    decreases plain.len(),
{
    if plain.len() > 0 {
        let some = seq!['>', '"', '\''];
        assert(some[0] == '>' && some[1] == '"' && some[2] == '\'');
        assert(some.contains('>') && some.contains('"') && some.contains('\''));
        lemma_at(text, at, plain);
        assert(text[at + 0] == plain[0]);
        let rest = plain.drop_first();
        assert(plain =~= seq![plain[0]] + rest);
        lemma_split(text, at, seq![plain[0]], rest);
        assert forall|i: int| 0 <= i < rest.len() implies !some.contains(#[trigger] rest[i]) by {
            assert(rest[i] == plain[i + 1]);
        }
        lemma_plain_tag(text, at + 1, rest, open, deepest);
    }
}

proof fn lemma_value(
    text: Seq<char>,
    at: int,
    value: Seq<char>,
    quote: char,
    open: int,
    deepest: int,
)
    requires
        occurs_at(text, value + seq![quote], at),
        has_none_of(value, seq![quote]),
    ensures
        nesting_from(text, at, Within::Value(quote), open, deepest) == nesting_from(
            text,
            at + value.len() + 1,
            Within::Tag,
            open,
            deepest,
        ),
    decreases value.len(),
{
    assert(seq![quote][0] == quote);
    assert(seq![quote].contains(quote));
    lemma_at(text, at, value + seq![quote]);
    assert(text[at + 0] == (value + seq![quote])[0]);
    if value.len() > 0 {
        let rest = value.drop_first();
        assert(value + seq![quote] =~= seq![value[0]] + (rest + seq![quote]));
        lemma_split(text, at, seq![value[0]], rest + seq![quote]);
        assert forall|i: int| 0 <= i < rest.len() implies !seq![quote].contains(
            #[trigger] rest[i],
        ) by {
            assert(rest[i] == value[i + 1]);
        }
        lemma_value(text, at + 1, rest, quote, open, deepest);
    }
}

proof fn lemma_tag(
    text: Seq<char>,
    at: int,
    values: Seq<Quoted>,
    rest: Seq<char>,
    open: int,
    deepest: int,
)
    requires
        occurs_at(text, tag_text(values, rest), at),
        has_none_of(rest, seq!['>', '"', '\'']),
        forall|i: int|
            0 <= i < values.len() ==> {
                &&& has_none_of((#[trigger] values[i]).before, seq!['>', '"', '\''])
                &&& values[i].quote == '"' || values[i].quote == '\''
                &&& has_none_of(values[i].value, seq![values[i].quote])
            },
    ensures
        nesting_from(text, at, Within::Tag, open, deepest) == nesting_from(
            text,
            at + tag_text(values, rest).len(),
            Within::Tag,
            open,
            deepest,
        ),
    decreases values.len(),
{
    if values.len() == 0 {
        lemma_plain_tag(text, at, rest, open, deepest);
    } else {
        let first = values[0];
        let behind = tag_text(values.drop_first(), rest);
        let quoted = first.value + seq![first.quote];
        assert(tag_text(values, rest) =~= first.before + (seq![first.quote] + (quoted + behind)));
        lemma_split(text, at, first.before, seq![first.quote] + (quoted + behind));
        lemma_plain_tag(text, at, first.before, open, deepest);
        let start = at + first.before.len();
        lemma_split(text, start, seq![first.quote], quoted + behind);
        assert(text[start + 0] == seq![first.quote][0]);
        lemma_split(text, start + 1, quoted, behind);
        lemma_value(text, start + 1, first.value, first.quote, open, deepest);
        assert forall|i: int| 0 <= i < values.drop_first().len() implies {
            &&& has_none_of((#[trigger] values.drop_first()[i]).before, seq!['>', '"', '\''])
            &&& values.drop_first()[i].quote == '"' || values.drop_first()[i].quote == '\''
            &&& has_none_of(values.drop_first()[i].value, seq![values.drop_first()[i].quote])
        } by {
            assert(values.drop_first()[i] == values[i + 1]);
        }
        lemma_tag(
            text,
            start + 1 + quoted.len(),
            values.drop_first(),
            rest,
            open,
            deepest,
        );
    }
}

/// Where a tag begins, one more element is open.
proof fn lemma_tag_begins(
    text: Seq<char>,
    at: int,
    values: Seq<Quoted>,
    rest: Seq<char>,
    open: int,
    deepest: int,
)
    requires
        occurs_at(text, seq!['<'] + tag_text(values, rest), at),
        is_tag(values, rest),
    ensures
        nesting_from(text, at, Within::Text, open, deepest) == nesting_from(
            text,
            at + 1 + tag_text(values, rest).len(),
            Within::Tag,
            open + 1,
            most(deepest, open + 1),
        ),
        text[at + tag_text(values, rest).len()] == tag_text(values, rest).last(),
{
    let tag = tag_text(values, rest);
    reveal_strlit("<!--");
    reveal_strlit("<![CDATA[");
    reveal_strlit("<?");
    reveal_strlit("</");
    lemma_split(text, at, seq!['<'], tag);
    lemma_at(text, at + 1, tag);
    lemma_at(text, at, seq!['<']);
    assert(text[at + 0] == seq!['<'][0]);
    assert(text[at + 1 + 0] == tag[0]);
    let some = seq!['!', '?', '/'];
    assert(some[0] == '!' && some[1] == '?' && some[2] == '/');
    assert(some.contains('!') && some.contains('?') && some.contains('/'));
    assert(!some.contains(seq![tag[0]][0]));
    if occurs_at(text, "<!--"@, at) {
        lemma_at(text, at, "<!--"@);
        assert(text[at + 1] == "<!--"@[1]);
    }
    if occurs_at(text, "<![CDATA["@, at) {
        lemma_at(text, at, "<![CDATA["@);
        assert(text[at + 1] == "<![CDATA["@[1]);
    }
    if occurs_at(text, "<?"@, at) {
        lemma_at(text, at, "<?"@);
        assert(text[at + 1] == "<?"@[1]);
    }
    if occurs_at(text, "</"@, at) {
        lemma_at(text, at, "</"@);
        assert(text[at + 1] == "</"@[1]);
    }
    lemma_tag(text, at + 1, values, rest, open + 1, most(deepest, open + 1));
    assert(text[at + 1 + (tag.len() - 1)] == tag[tag.len() - 1]);
}

proof fn lemma_part(text: Seq<char>, at: int, part: Markup, open: int, deepest: int)
    requires
        occurs_at(text, written(part), at),
        is_part(part),
        0 <= open <= deepest,
    ensures
        nesting_from(text, at, Within::Text, open, deepest) == nesting_from(
            text,
            at + written(part).len(),
            Within::Text,
            open,
            most(deepest, open + depth(part)),
        ),
    decreases part,
{
    reveal_strlit("<!--");
    reveal_strlit("-->");
    reveal_strlit("<![CDATA[");
    reveal_strlit("]]>");
    reveal_strlit("<?");
    reveal_strlit("?>");
    reveal_strlit("</");
    match part {
        Markup::Words(words) => {
            lemma_words(text, at, words, open, deepest);
        },
        Markup::Comment(words) => {
            assert(written(part) =~= "<!--"@ + (words + "-->"@));
            lemma_split(text, at, "<!--"@, words + "-->"@);
            assert(text[at + 0] == "<!--"@[0]);
            lemma_until(text, at + 4, words, "-->"@, Within::Comment, open, deepest);
        },
        Markup::Cdata(words) => {
            assert(written(part) =~= "<![CDATA["@ + (words + "]]>"@));
            lemma_split(text, at, "<![CDATA["@, words + "]]>"@);
            assert(text[at + 0] == "<![CDATA["@[0]);
            assert(text[at + 2] == "<![CDATA["@[2]);
            if occurs_at(text, "<!--"@, at) {
                lemma_at(text, at, "<!--"@);
                assert(text[at + 2] == "<!--"@[2]);
            }
            lemma_until(text, at + 9, words, "]]>"@, Within::Cdata, open, deepest);
        },
        Markup::Instruction(words) => {
            assert(written(part) =~= "<?"@ + (words + "?>"@));
            lemma_split(text, at, "<?"@, words + "?>"@);
            assert(text[at + 0] == "<?"@[0]);
            assert(text[at + 1] == "<?"@[1]);
            if occurs_at(text, "<!--"@, at) {
                lemma_at(text, at, "<!--"@);
                assert(text[at + 1] == "<!--"@[1]);
            }
            if occurs_at(text, "<![CDATA["@, at) {
                lemma_at(text, at, "<![CDATA["@);
                assert(text[at + 1] == "<![CDATA["@[1]);
            }
            lemma_until(text, at + 2, words, "?>"@, Within::Instruction, open, deepest);
        },
        Markup::Empty(values, rest) => {
            let tag = seq!['<'] + tag_text(values, rest);
            lemma_split(text, at, tag, seq!['/', '>']);
            lemma_tag_begins(text, at, values, rest, open, deepest);
            let end = at + tag.len();
            lemma_at(text, end, seq!['/', '>']);
            assert(text[end + 0] == seq!['/', '>'][0]);
            assert(text[end + 1] == seq!['/', '>'][1]);
            reveal_with_fuel(nesting_from, 3);
        },
        Markup::Element(values, rest, contents, name) => {
            let tag = seq!['<'] + tag_text(values, rest);
            let inner = written_all(contents);
            let closing = "</"@ + (name + seq!['>']);
            assert(written(part) =~= tag + (seq!['>'] + (inner + closing)));
            lemma_split(text, at, tag, seq!['>'] + (inner + closing));
            lemma_tag_begins(text, at, values, rest, open, deepest);
            let end = at + tag.len();
            lemma_split(text, end, seq!['>'], inner + closing);
            assert(text[end + 0] == seq!['>'][0]);
            lemma_split(text, end + 1, inner, closing);
            let deeper = most(deepest, open + 1);
            assert(nesting_from(text, end, Within::Tag, open + 1, deeper) == nesting_from(
                text,
                end + 1,
                Within::Text,
                open + 1,
                deeper,
            ));
            lemma_parts(text, end + 1, contents, open + 1, deeper);
            lemma_depth(contents);
            let last = end + 1 + inner.len();
            lemma_split(text, last, "</"@, name + seq!['>']);
            assert(text[last + 0] == "</"@[0]);
            assert(text[last + 1] == "</"@[1]);
            if occurs_at(text, "<!--"@, last) {
                lemma_at(text, last, "<!--"@);
                assert(text[last + 1] == "<!--"@[1]);
            }
            if occurs_at(text, "<![CDATA["@, last) {
                lemma_at(text, last, "<![CDATA["@);
                assert(text[last + 1] == "<![CDATA["@[1]);
            }
            if occurs_at(text, "<?"@, last) {
                lemma_at(text, last, "<?"@);
                assert(text[last + 1] == "<?"@[1]);
            }
            let deepest_then = most(deeper, open + 1 + depth_of_all(contents));
            assert(nesting_from(text, last, Within::Text, open + 1, deepest_then) == nesting_from(
                text,
                last + 2,
                Within::Text,
                open,
                deepest_then,
            ));
            assert forall|i: int| 0 <= i < (name + seq!['>']).len() implies !seq!['<'].contains(
                #[trigger] (name + seq!['>'])[i],
            ) by {
                if i < name.len() {
                    assert((name + seq!['>'])[i] == name[i]);
                }
            }
            lemma_words(text, last + 2, name + seq!['>'], open, deepest_then);
        },
    }
}

proof fn lemma_parts(text: Seq<char>, at: int, parts: Seq<Markup>, open: int, deepest: int)
    requires
        occurs_at(text, written_all(parts), at),
        are_parts(parts),
        0 <= open <= deepest,
    ensures
        nesting_from(text, at, Within::Text, open, deepest) == nesting_from(
            text,
            at + written_all(parts).len(),
            Within::Text,
            open,
            most(deepest, open + depth_of_all(parts)),
        ),
    decreases parts,
{
    if parts.len() > 0 {
        lemma_split(text, at, written(parts[0]), written_all(parts.drop_first()));
        lemma_part(text, at, parts[0], open, deepest);
        lemma_parts(
            text,
            at + written(parts[0]).len(),
            parts.drop_first(),
            open,
            most(deepest, open + depth(parts[0])),
        );
        lemma_depth(parts.drop_first());
    }
}

} // verus!
